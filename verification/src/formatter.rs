//! The formatter: the semantic analysis of the syntax tree of a pattern string into patterns of parts, and the
//! formatting of the patterns with placeholder values.
//!
//! The main string is the pattern `_`; each named substring is a pattern of its own. A `plural`, `ordinal` or
//! `select` pattern selects a named substring by its selectors; a named substring only selects named
//! substrings defined before it, and the main string is not a named substring, so the selection never loops.

use crate::command::{is_first, parameter_views, Command, CommandRegistry};
use crate::error::{CommandError, CommandErrorView, FormatterError, FormatterErrorView};
use crate::lexer::{is_tokenisation, IcuDataProvider, Token};
use crate::options::{
    DateLength, GroupingStrategy, SignOption, TimeLength, is_calendar, is_plural_selector, spec_calendar_locale,
    spec_date_length, spec_grouping, spec_sign_display, spec_time_length,
};
use crate::icu::spec_locale;
use crate::tree::{NodeType, NodeView, RunView, Tree, parse_tokens};
use std::rc::Rc;
use vstd::prelude::*;

verus! {

/// The kinds of selecting patterns.
#[derive(Debug, Clone, Copy, PartialEq, Eq, Structural)]
pub enum ComplexType {
    Plural,
    Ordinal,
    Select,
}

/// A part of a pattern:
///
/// * `Text`: literal text,
/// * `NumberSign`: the number of the enclosing plural pattern (index of its number string),
/// * `PatternString`: a placeholder for a string,
/// * `PatternDecimal`: a placeholder for a number, with its sign display and grouping options,
/// * `PatternDateTime`: a placeholder for a date, time or both, with its lengths and calendar locale,
/// * `PatternComplex`: a placeholder that selects a named substring (index of its selectors),
/// * `Command`: a delayed command: its identifier and parameters.
#[derive(Debug)]
pub enum PatternPart {
    Text(String),
    NumberSign(usize),
    PatternString(String),
    PatternDecimal { placeholder: String, sign: Option<SignOption>, group: Option<GroupingStrategy> },
    PatternDateTime {
        placeholder: String,
        length_date: Option<DateLength>,
        length_time: Option<TimeLength>,
        calendar: Option<String>,
    },
    PatternComplex { placeholder: String, complex: ComplexType, selectors: usize },
    Command { strings: Vec<String> },
}

/// A [`PatternPart`] with its strings as character sequences.
pub enum PartView {
    Text(Seq<char>),
    NumberSign(usize),
    PatternString(Seq<char>),
    PatternDecimal(Seq<char>, Option<SignOption>, Option<GroupingStrategy>),
    PatternDateTime(Seq<char>, Option<DateLength>, Option<TimeLength>, Option<Seq<char>>),
    PatternComplex(Seq<char>, ComplexType, usize),
    Command(Seq<Seq<char>>),
}

/// The views of strings.
pub open spec fn strings_view(strings: Seq<String>) -> Seq<Seq<char>> {
    strings.map_values(|s: String| s@)
}

impl View for PatternPart {
    type V = PartView;

    open spec fn view(&self) -> PartView {
        match self {
            PatternPart::Text(s) => PartView::Text(s@),
            PatternPart::NumberSign(i) => PartView::NumberSign(*i),
            PatternPart::PatternString(s) => PartView::PatternString(s@),
            PatternPart::PatternDecimal { placeholder, sign, group } => PartView::PatternDecimal(
                placeholder@,
                *sign,
                *group,
            ),
            PatternPart::PatternDateTime { placeholder, length_date, length_time, calendar } => {
                PartView::PatternDateTime(
                    placeholder@,
                    *length_date,
                    *length_time,
                    match calendar {
                        Some(c) => Some(c@),
                        None => None,
                    },
                )
            },
            PatternPart::PatternComplex { placeholder, complex, selectors } => PartView::PatternComplex(
                placeholder@,
                *complex,
                *selectors,
            ),
            PatternPart::Command { strings } => PartView::Command(strings_view(strings@)),
        }
    }
}

/// A call of a command made by the analysis: the command, its parameters and its outcome.
pub struct CommandCall {
    pub command: Seq<char>,
    pub parameters: Seq<Seq<char>>,
    pub outcome: Result<Seq<char>, CommandErrorView>,
}

/// What the analysis has built besides the parts: the number of number signs, the selectors of the selecting
/// patterns (selector, index of the named substring), and the number of commands called.
pub struct AnalysisState {
    pub numbers: nat,
    pub selectors: Seq<Seq<(Seq<char>, usize)>>,
    pub calls: nat,
}

/// The text of a leaf: the strings of its tokens, concatenated.
pub open spec fn leaf_text(tokens: Seq<Token>, indices: Seq<usize>) -> Seq<char>
    decreases indices.len(),
{
    if indices.len() == 0 {
        Seq::empty()
    } else {
        leaf_text(tokens, indices.drop_last()) + tokens[indices.last() as int].string@
    }
}

/// The string of the first token of node `node`, which must hold one.
pub open spec fn first_token(tokens: Seq<Token>, nodes: Seq<NodeView>, node: usize) -> Result<
    Seq<char>,
    FormatterErrorView,
> {
    if nodes[node as int].tokens.len() == 0 {
        Err(FormatterErrorView::RetrieveNodeToken(nodes[node as int].node_type))
    } else {
        Ok(tokens[nodes[node as int].tokens[0] as int].string@)
    }
}

/// The string of the Identifier node `node`.
pub open spec fn identifier(tokens: Seq<Token>, nodes: Seq<NodeView>, node: usize) -> Result<
    Seq<char>,
    FormatterErrorView,
> {
    if nodes[node as int].node_type != NodeType::Identifier {
        Err(FormatterErrorView::NodeNotFound(NodeType::Identifier))
    } else {
        first_token(tokens, nodes, node)
    }
}

/// The position of the first pair with the key.
pub open spec fn key_index<V>(pairs: Seq<(Seq<char>, V)>, key: Seq<char>) -> Option<int>
    decreases pairs.len(),
{
    if pairs.len() == 0 {
        None
    } else {
        match key_index(pairs.drop_last(), key) {
            Some(i) => Some(i),
            None => if pairs.last().0 == key {
                Some(pairs.len() - 1)
            } else {
                None
            },
        }
    }
}

/// The position that [`key_index`] gives is that of the first pair with the key, and it gives none exactly when
/// no pair has the key.
pub proof fn lemma_key_index<V>(pairs: Seq<(Seq<char>, V)>, key: Seq<char>)
    ensures
        key_index(pairs, key) matches Some(j) ==> 0 <= j < pairs.len() && pairs[j].0 == key && forall|l: int|
            0 <= l < j ==> pairs[l].0 != key,
        key_index(pairs, key) is None <==> forall|l: int| 0 <= l < pairs.len() ==> pairs[l].0 != key,
    decreases pairs.len(),
{
    if pairs.len() > 0 {
        let init = pairs.drop_last();
        lemma_key_index(init, key);
        assert forall|l: int| 0 <= l < init.len() implies init[l] == pairs[l] by {}
        if key_index(init, key) is None && pairs.last().0 != key {
            assert forall|l: int| 0 <= l < pairs.len() implies pairs[l].0 != key by {
                if l < init.len() {
                    assert(init[l].0 != key);
                }
            }
        }
    }
}

/// Inserts the pair as a map does: the value of an existing key is replaced in place, a new key is appended.
pub open spec fn insert_pair<V>(pairs: Seq<(Seq<char>, V)>, key: Seq<char>, value: V) -> Seq<(Seq<char>, V)> {
    match key_index(pairs, key) {
        Some(i) => pairs.update(i, (key, value)),
        None => pairs.push((key, value)),
    }
}

/// The selector pair of the Selector node `node`: its first and last Identifier children.
pub open spec fn selector_pair(tokens: Seq<Token>, nodes: Seq<NodeView>, node: usize) -> Result<
    (Seq<char>, Seq<char>),
    FormatterErrorView,
> {
    let ch = nodes[node as int].children;
    if nodes[node as int].node_type != NodeType::Selector {
        Err(FormatterErrorView::NodeNotFound(NodeType::Selector))
    } else if ch.len() == 0 {
        Err(FormatterErrorView::FirstChild(NodeType::Selector))
    } else {
        match identifier(tokens, nodes, ch[0]) {
            Err(e) => Err(e),
            Ok(key) => match identifier(tokens, nodes, ch.last()) {
                Err(e) => Err(e),
                Ok(value) => Ok((key, value)),
            },
        }
    }
}

/// The selectors of a pattern, from its Selector children, inserted into `acc` as into a map from the first
/// to the last identifier.
pub open spec fn pattern_pairs(
    tokens: Seq<Token>,
    nodes: Seq<NodeView>,
    selectors: Seq<usize>,
    acc: Seq<(Seq<char>, Seq<char>)>,
) -> Result<Seq<(Seq<char>, Seq<char>)>, FormatterErrorView>
    decreases selectors.len(),
{
    if selectors.len() == 0 {
        Ok(acc)
    } else {
        match selector_pair(tokens, nodes, selectors[0]) {
            Err(e) => Err(e),
            Ok((k, v)) => pattern_pairs(tokens, nodes, selectors.drop_first(), insert_pair(acc, k, v)),
        }
    }
}

/// The options of a `decimal` pattern, `sign` and `group`, applied in order to `acc`: the last value of each
/// counts.
pub open spec fn decimal_options(
    pairs: Seq<(Seq<char>, Seq<char>)>,
    placeholder: Seq<char>,
    acc: (Option<SignOption>, Option<GroupingStrategy>),
) -> Result<(Option<SignOption>, Option<GroupingStrategy>), FormatterErrorView>
    decreases pairs.len(),
{
    if pairs.len() == 0 {
        Ok(acc)
    } else {
        let (key, value) = pairs[0];
        let next = if key == "sign"@ {
            match spec_sign_display(value) {
                Some(s) => Ok((Some(s), acc.1)),
                None => Err(FormatterErrorView::InvalidOptionValue(value, "sign"@, "decimal"@)),
            }
        } else if key == "group"@ {
            match spec_grouping(value) {
                Some(g) => Ok((acc.0, Some(g))),
                None => Err(FormatterErrorView::InvalidOptionValue(value, "group"@, "decimal"@)),
            }
        } else {
            Err(FormatterErrorView::InvalidOption(value, "decimal"@, placeholder))
        };
        match next {
            Err(e) => Err(e),
            Ok(a) => decimal_options(pairs.drop_first(), placeholder, a),
        }
    }
}

/// A `sign` option of a `decimal` pattern with one of the option values of
/// [`crate::options::sign_option_table`] sets the sign display that the table names, whatever was set before,
/// and keeps the grouping.
pub proof fn lemma_decimal_sign_option(
    k: int,
    placeholder: Seq<char>,
    acc: (Option<SignOption>, Option<GroupingStrategy>),
)
    requires
        0 <= k < 5,
    ensures
        decimal_options(seq![("sign"@, crate::options::sign_option_table()[k].0)], placeholder, acc) == Ok::<
            (Option<SignOption>, Option<GroupingStrategy>),
            FormatterErrorView,
        >((Some(crate::options::sign_option_table()[k].1), acc.1)),
{
    crate::options::lemma_sign_option_table(Seq::empty());
    let v = crate::options::sign_option_table()[k].0;
    let d = crate::options::sign_option_table()[k].1;
    let pairs = seq![("sign"@, v)];
    assert(spec_sign_display(v) == Some(d));
    assert(pairs[0] == ("sign"@, v));
    assert(pairs.drop_first() =~= Seq::<(Seq<char>, Seq<char>)>::empty());
    assert(decimal_options(pairs.drop_first(), placeholder, (Some(d), acc.1)) == Ok::<
        (Option<SignOption>, Option<GroupingStrategy>),
        FormatterErrorView,
    >((Some(d), acc.1)));
}

/// A decimal part formats the value of its placeholder with its own sign display and grouping: an integer by
/// the text that ICU4X gives its sign (negative below zero), its absolute value and the power of ten zero, a
/// decimal number by the text of its sign, digits and exponent; the number strings and the outside outcomes are
/// untouched.
pub proof fn lemma_decimal_part(
    fv: FormatterView,
    values: Seq<(String, crate::values::PlaceholderValue)>,
    registry: Seq<Seq<char>>,
    outs: Seq<Outside>,
    p: nat,
    placeholder: Seq<char>,
    sign: Option<SignOption>,
    group: Option<GroupingStrategy>,
    numbers: Seq<Seq<char>>,
    k: nat,
)
    requires
        crate::icu::spec_locale(fv.locale) is Some,
    ensures
        crate::values::lookup(values, placeholder) matches Some(crate::values::PlaceholderValue::Integer(n)) ==> format_part(
            fv,
            values,
            registry,
            outs,
            p,
            PartView::PatternDecimal(placeholder, sign, group),
            numbers,
            k,
        ) == match crate::icu::spec_decimal_text(
            fv.locale,
            sign,
            group,
            if n < 0 {
                crate::values::DecimalSign::Negative
            } else {
                crate::values::DecimalSign::Unsigned
            },
            if n < 0 {
                -(n as int)
            } else {
                n as int
            },
            0,
        ) {
            Some(t) => Ok::<Formatted, FormatterErrorView>((t, numbers, k)),
            None => Err(FormatterErrorView::Decimal),
        },
        crate::values::lookup(values, placeholder) matches Some(crate::values::PlaceholderValue::Unsigned(n)) ==> format_part(
            fv,
            values,
            registry,
            outs,
            p,
            PartView::PatternDecimal(placeholder, sign, group),
            numbers,
            k,
        ) == match crate::icu::spec_decimal_text(fv.locale, sign, group, crate::values::DecimalSign::Unsigned, n as int, 0) {
            Some(t) => Ok::<Formatted, FormatterErrorView>((t, numbers, k)),
            None => Err(FormatterErrorView::Decimal),
        },
        crate::values::lookup(values, placeholder) matches Some(crate::values::PlaceholderValue::FixedDecimal(d)) ==> format_part(
            fv,
            values,
            registry,
            outs,
            p,
            PartView::PatternDecimal(placeholder, sign, group),
            numbers,
            k,
        ) == match crate::icu::spec_decimal_text(fv.locale, sign, group, d.sign, d.digits as int, d.exponent as int) {
            Some(t) => Ok::<Formatted, FormatterErrorView>((t, numbers, k)),
            None => Err(FormatterErrorView::Decimal),
        },
{
}

/// A string part gives the text of its placeholder's string value (a tagged string's text), a number sign part
/// the number string of its index, and a text part its text; none of them changes the number strings or uses
/// an outside outcome.
pub proof fn lemma_text_parts(
    fv: FormatterView,
    values: Seq<(String, crate::values::PlaceholderValue)>,
    registry: Seq<Seq<char>>,
    outs: Seq<Outside>,
    p: nat,
    placeholder: Seq<char>,
    text: Seq<char>,
    i: usize,
    numbers: Seq<Seq<char>>,
    k: nat,
)
    ensures
        format_part(fv, values, registry, outs, p, PartView::Text(text), numbers, k) == Ok::<Formatted, FormatterErrorView>(
            (text, numbers, k),
        ),
        crate::values::lookup(values, placeholder) matches Some(crate::values::PlaceholderValue::String(v)) ==> format_part(
            fv,
            values,
            registry,
            outs,
            p,
            PartView::PatternString(placeholder),
            numbers,
            k,
        ) == Ok::<Formatted, FormatterErrorView>((v@, numbers, k)),
        crate::values::lookup(values, placeholder) matches Some(crate::values::PlaceholderValue::TaggedString(v))
            ==> format_part(fv, values, registry, outs, p, PartView::PatternString(placeholder), numbers, k) == Ok::<
            Formatted,
            FormatterErrorView,
        >((v.text(), numbers, k)),
        crate::values::lookup(values, placeholder) is None ==> format_part(
            fv,
            values,
            registry,
            outs,
            p,
            PartView::PatternString(placeholder),
            numbers,
            k,
        ) == Err::<Formatted, FormatterErrorView>(FormatterErrorView::PlaceholderValue("PatternString"@, placeholder)),
        i < numbers.len() ==> format_part(fv, values, registry, outs, p, PartView::NumberSign(i), numbers, k) == Ok::<
            Formatted,
            FormatterErrorView,
        >((numbers[i as int], numbers, k)),
{
}

/// A `select` part formats the named substring that its selectors give for the placeholder's string; a
/// `plural` part with an unsigned integer formats the named substring that its selectors give for the name of
/// the integer's cardinal plural category, with its number signs set to the integer's text (without sign
/// display or grouping options).
pub proof fn lemma_selecting_parts(
    fv: FormatterView,
    values: Seq<(String, crate::values::PlaceholderValue)>,
    registry: Seq<Seq<char>>,
    outs: Seq<Outside>,
    p: nat,
    placeholder: Seq<char>,
    index: usize,
    numbers: Seq<Seq<char>>,
    k: nat,
)
    requires
        crate::icu::spec_locale(fv.locale) is Some,
    ensures
        crate::values::lookup(values, placeholder) matches Some(crate::values::PlaceholderValue::String(v)) ==> format_part(
            fv,
            values,
            registry,
            outs,
            p,
            PartView::PatternComplex(placeholder, ComplexType::Select, index),
            numbers,
            k,
        ) == format_selected(fv, values, registry, outs, p, index, v@, None, numbers, k),
        crate::values::lookup(values, placeholder) matches Some(crate::values::PlaceholderValue::Unsigned(n)) ==> format_part(
            fv,
            values,
            registry,
            outs,
            p,
            PartView::PatternComplex(placeholder, ComplexType::Plural, index),
            numbers,
            k,
        ) == match crate::icu::spec_plural(fv.locale, false, crate::values::DecimalSign::Unsigned, n as int, 0) {
            None => Err(FormatterErrorView::PluralRules),
            Some(c) => match crate::icu::spec_decimal_text(
                fv.locale,
                None,
                None,
                crate::values::DecimalSign::Unsigned,
                n as int,
                0,
            ) {
                None => Err(FormatterErrorView::Decimal),
                Some(t) => format_selected(
                    fv,
                    values,
                    registry,
                    outs,
                    p,
                    index,
                    crate::options::spec_plural_category(c),
                    Some(t),
                    numbers,
                    k,
                ),
            },
        },
{
}

/// The options of a `date_time` pattern, `date`, `time` and `calendar` (the locale with the calendar), applied
/// in order to `acc`: the last value of each counts.
pub open spec fn date_time_options(
    pairs: Seq<(Seq<char>, Seq<char>)>,
    placeholder: Seq<char>,
    locale: Seq<char>,
    acc: (Option<DateLength>, Option<TimeLength>, Option<Seq<char>>),
) -> Result<(Option<DateLength>, Option<TimeLength>, Option<Seq<char>>), FormatterErrorView>
    decreases pairs.len(),
{
    if pairs.len() == 0 {
        Ok(acc)
    } else {
        let (key, value) = pairs[0];
        let next = if key == "date"@ {
            match spec_date_length(value) {
                Some(d) => Ok((Some(d), acc.1, acc.2)),
                None => Err(FormatterErrorView::InvalidOptionValue(value, "date"@, "date_time"@)),
            }
        } else if key == "time"@ {
            match spec_time_length(value) {
                Some(t) => Ok((acc.0, Some(t), acc.2)),
                None => Err(FormatterErrorView::InvalidOptionValue(value, "time"@, "date_time"@)),
            }
        } else if key == "calendar"@ {
            if !is_calendar(value) {
                Err(FormatterErrorView::InvalidOption(value, "ordinal"@, placeholder))
            } else {
                match spec_locale(spec_calendar_locale(locale, value)) {
                    Some(l) => Ok((acc.0, acc.1, Some(l))),
                    None => Err(FormatterErrorView::Locale),
                }
            }
        } else {
            Err(FormatterErrorView::InvalidOption(value, "date-time"@, placeholder))
        };
        match next {
            Err(e) => Err(e),
            Ok(a) => date_time_options(pairs.drop_first(), placeholder, locale, a),
        }
    }
}

/// The position of the first occurrence of the name.
pub open spec fn name_index(names: Seq<Seq<char>>, name: Seq<char>) -> Option<int>
    decreases names.len(),
{
    if names.len() == 0 {
        None
    } else {
        match name_index(names.drop_last(), name) {
            Some(i) => Some(i),
            None => if names.last() == name {
                Some(names.len() - 1)
            } else {
                None
            },
        }
    }
}

/// The selectors of a selecting pattern with the named substrings they select, appended in order to `acc`,
/// and whether `other` is among them. For `plural` and `ordinal` every selector must be a plural category.
pub open spec fn complex_selectors(
    pairs: Seq<(Seq<char>, Seq<char>)>,
    names: Seq<Seq<char>>,
    keyword: Seq<char>,
    placeholder: Seq<char>,
    plural: bool,
    acc: (Seq<(Seq<char>, usize)>, bool),
) -> Result<(Seq<(Seq<char>, usize)>, bool), FormatterErrorView>
    decreases pairs.len(),
{
    if pairs.len() == 0 {
        Ok(acc)
    } else {
        let (selector, named) = pairs[0];
        if plural && !is_plural_selector(selector) {
            Err(FormatterErrorView::InvalidSelector(selector, keyword, placeholder))
        } else {
            match name_index(names, named) {
                None => Err(FormatterErrorView::SelectorNamed(named, selector, placeholder)),
                Some(i) => complex_selectors(
                    pairs.drop_first(),
                    names,
                    keyword,
                    placeholder,
                    plural,
                    (acc.0.push((selector, i as usize)), acc.1 || selector == "other"@),
                ),
            }
        }
    }
}

/// The part of a selecting pattern and the state with its selectors added.
pub open spec fn complex_part(
    pairs: Seq<(Seq<char>, Seq<char>)>,
    names: Seq<Seq<char>>,
    keyword: Seq<char>,
    placeholder: Seq<char>,
    complex: ComplexType,
    st: AnalysisState,
) -> Result<(PartView, AnalysisState), FormatterErrorView> {
    let plural = complex != ComplexType::Select;
    match complex_selectors(pairs, names, keyword, placeholder, plural, (Seq::empty(), false)) {
        Err(e) => Err(e),
        Ok((resolved, other)) => if plural && !other {
            Err(FormatterErrorView::SelectorOther(keyword, placeholder))
        } else {
            Ok(
                (
                    PartView::PatternComplex(placeholder, complex, st.selectors.len() as usize),
                    AnalysisState { selectors: st.selectors.push(resolved), ..st },
                ),
            )
        },
    }
}

/// The part of the Pattern node `node`: a placeholder, with a keyword and its options or selectors.
pub open spec fn pattern_part(
    tokens: Seq<Token>,
    nodes: Seq<NodeView>,
    node: usize,
    names: Seq<Seq<char>>,
    locale: Seq<char>,
    st: AnalysisState,
) -> Result<(PartView, AnalysisState), FormatterErrorView> {
    let ch = nodes[node as int].children;
    if ch.len() == 0 {
        Err(FormatterErrorView::NoChildren(NodeType::Pattern))
    } else {
        match identifier(tokens, nodes, ch[0]) {
            Err(e) => Err(e),
            Ok(placeholder) => if ch.len() == 1 {
                Ok((PartView::PatternString(placeholder), st))
            } else {
                match identifier(tokens, nodes, ch[1]) {
                    Err(e) => Err(e),
                    Ok(keyword) => {
                        let selectors = pattern_pairs(tokens, nodes, ch.skip(2), Seq::empty());
                        if keyword == "decimal"@ {
                            match selectors {
                                Err(e) => Err(e),
                                Ok(pairs) => match decimal_options(pairs, placeholder, (None, None)) {
                                    Err(e) => Err(e),
                                    Ok((sign, group)) => Ok((PartView::PatternDecimal(placeholder, sign, group), st)),
                                },
                            }
                        } else if keyword == "date_time"@ {
                            match selectors {
                                Err(e) => Err(e),
                                Ok(pairs) => match date_time_options(pairs, placeholder, locale, (None, None, None)) {
                                    Err(e) => Err(e),
                                    Ok((date, time, calendar)) => Ok(
                                        (PartView::PatternDateTime(placeholder, date, time, calendar), st),
                                    ),
                                },
                            }
                        } else if keyword == "ordinal"@ || keyword == "plural"@ || keyword == "select"@ {
                            let complex = if keyword == "ordinal"@ {
                                ComplexType::Ordinal
                            } else if keyword == "plural"@ {
                                ComplexType::Plural
                            } else {
                                ComplexType::Select
                            };
                            match selectors {
                                Err(e) => Err(e),
                                Ok(pairs) => complex_part(pairs, names, keyword, placeholder, complex, st),
                            }
                        } else {
                            Err(FormatterErrorView::InvalidKeyword(keyword, placeholder))
                        }
                    },
                }
            },
        }
    }
}

/// The parameters of a command from its Identifier and Text nodes, appended in order to `acc`.
pub open spec fn command_parameters(
    tokens: Seq<Token>,
    nodes: Seq<NodeView>,
    params: Seq<usize>,
    acc: Seq<Seq<char>>,
) -> Result<Seq<Seq<char>>, FormatterErrorView>
    decreases params.len(),
{
    if params.len() == 0 {
        Ok(acc)
    } else {
        let p = params[0];
        let next = if nodes[p as int].node_type == NodeType::Identifier {
            first_token(tokens, nodes, p)
        } else if nodes[p as int].node_type == NodeType::Text {
            Ok(leaf_text(tokens, nodes[p as int].tokens))
        } else {
            Err(FormatterErrorView::InvalidNode(NodeType::Command))
        };
        match next {
            Err(e) => Err(e),
            Ok(s) => command_parameters(tokens, nodes, params.drop_first(), acc.push(s)),
        }
    }
}

/// The part of the Command node `node`: a delayed command (after `#`), or the text of the command, called now
/// with the outcome `calls[st.calls]`.
pub open spec fn command_part(
    tokens: Seq<Token>,
    nodes: Seq<NodeView>,
    node: usize,
    registry: Seq<Seq<char>>,
    calls: Seq<CommandCall>,
    st: AnalysisState,
) -> Result<(PartView, AnalysisState), FormatterErrorView> {
    let ch = nodes[node as int].children;
    if ch.len() == 0 {
        Err(FormatterErrorView::NoChildren(NodeType::Pattern))
    } else {
        match identifier(tokens, nodes, ch[0]) {
            Err(e) => Err(e),
            Ok(command) => {
                let delay = ch.len() > 1 && nodes[ch[1] as int].node_type == NodeType::NumberSign;
                let params = if delay {
                    ch.skip(2)
                } else {
                    ch.skip(1)
                };
                match command_parameters(tokens, nodes, params, Seq::empty()) {
                    Err(e) => Err(e),
                    Ok(strings) => {
                        let parameters = seq![command] + strings;
                        if delay {
                            Ok((PartView::Command(parameters), st))
                        } else if !registry.contains(command) {
                            Err(FormatterErrorView::Command(CommandErrorView::NotFound(command)))
                        } else if st.calls < calls.len() && calls[st.calls as int].command == command
                            && calls[st.calls as int].parameters == parameters {
                            match calls[st.calls as int].outcome {
                                Ok(text) => Ok((PartView::Text(text), AnalysisState { calls: st.calls + 1, ..st })),
                                Err(e) => Err(FormatterErrorView::Command(e)),
                            }
                        } else {
                            Err(FormatterErrorView::Unanswered)
                        }
                    },
                }
            },
        }
    }
}

/// The part of a child of a String node: Text, NumberSign (not in the main string), Pattern or Command.
pub open spec fn child_part(
    tokens: Seq<Token>,
    nodes: Seq<NodeView>,
    node: usize,
    main: bool,
    names: Seq<Seq<char>>,
    locale: Seq<char>,
    registry: Seq<Seq<char>>,
    calls: Seq<CommandCall>,
    st: AnalysisState,
) -> Result<(PartView, AnalysisState), FormatterErrorView> {
    let t = nodes[node as int].node_type;
    if t == NodeType::Text {
        Ok((PartView::Text(leaf_text(tokens, nodes[node as int].tokens)), st))
    } else if t == NodeType::NumberSign && !main {
        Ok((PartView::NumberSign(st.numbers as usize), AnalysisState { numbers: st.numbers + 1, ..st }))
    } else if t == NodeType::Pattern {
        pattern_part(tokens, nodes, node, names, locale, st)
    } else if t == NodeType::Command {
        command_part(tokens, nodes, node, registry, calls, st)
    } else {
        Err(FormatterErrorView::InvalidNode(NodeType::String))
    }
}

/// The parts of the children of a String node, appended in order to `acc`.
pub open spec fn string_parts(
    tokens: Seq<Token>,
    nodes: Seq<NodeView>,
    children: Seq<usize>,
    main: bool,
    names: Seq<Seq<char>>,
    locale: Seq<char>,
    registry: Seq<Seq<char>>,
    calls: Seq<CommandCall>,
    acc: Seq<PartView>,
    st: AnalysisState,
) -> Result<(Seq<PartView>, AnalysisState), FormatterErrorView>
    decreases children.len(),
{
    if children.len() == 0 {
        Ok((acc, st))
    } else {
        match child_part(tokens, nodes, children[0], main, names, locale, registry, calls, st) {
            Err(e) => Err(e),
            Ok((p, st1)) => string_parts(
                tokens,
                nodes,
                children.drop_first(),
                main,
                names,
                locale,
                registry,
                calls,
                acc.push(p),
                st1,
            ),
        }
    }
}

/// The names of the named substrings.
pub open spec fn pattern_names(named: Seq<(Seq<char>, Seq<PartView>)>) -> Seq<Seq<char>> {
    named.map_values(|p: (Seq<char>, Seq<PartView>)| p.0)
}

/// The named substring of the NamedString node `node`: a new identifier (not `_`) and the parts of its String
/// node, which select only the named substrings before it.
pub open spec fn named_pattern(
    tokens: Seq<Token>,
    nodes: Seq<NodeView>,
    node: usize,
    named: Seq<(Seq<char>, Seq<PartView>)>,
    locale: Seq<char>,
    registry: Seq<Seq<char>>,
    calls: Seq<CommandCall>,
    st: AnalysisState,
) -> Result<((Seq<char>, Seq<PartView>), AnalysisState), FormatterErrorView> {
    let ch = nodes[node as int].children;
    if !nodes[node as int].node_type.spec_allow_children() {
        Err(FormatterErrorView::RetrieveChildren(nodes[node as int].node_type))
    } else if ch.len() == 0 {
        Err(FormatterErrorView::FirstChild(NodeType::NamedString))
    } else {
        match first_token(tokens, nodes, ch[0]) {
            Err(e) => Err(e),
            Ok(id) => {
                let names = pattern_names(named);
                let string = ch.last();
                if id == "_"@ || names.contains(id) {
                    Err(FormatterErrorView::NamedStringIdentifier(id))
                } else if !nodes[string as int].node_type.spec_allow_children() {
                    Err(FormatterErrorView::RetrieveChildren(nodes[string as int].node_type))
                } else {
                    match string_parts(
                        tokens,
                        nodes,
                        nodes[string as int].children,
                        false,
                        names,
                        locale,
                        registry,
                        calls,
                        Seq::empty(),
                        st,
                    ) {
                        Err(e) => Err(e),
                        Ok((parts, st1)) => Ok(((id, parts), st1)),
                    }
                }
            },
        }
    }
}

/// The named substrings of the NamedString nodes, appended in order to `acc`.
pub open spec fn named_patterns(
    tokens: Seq<Token>,
    nodes: Seq<NodeView>,
    named_nodes: Seq<usize>,
    locale: Seq<char>,
    registry: Seq<Seq<char>>,
    calls: Seq<CommandCall>,
    acc: Seq<(Seq<char>, Seq<PartView>)>,
    st: AnalysisState,
) -> Result<(Seq<(Seq<char>, Seq<PartView>)>, AnalysisState), FormatterErrorView>
    decreases named_nodes.len(),
{
    if named_nodes.len() == 0 {
        Ok((acc, st))
    } else {
        match named_pattern(tokens, nodes, named_nodes[0], acc, locale, registry, calls, st) {
            Err(e) => Err(e),
            Ok((p, st1)) => named_patterns(
                tokens,
                nodes,
                named_nodes.drop_first(),
                locale,
                registry,
                calls,
                acc.push(p),
                st1,
            ),
        }
    }
}

/// The result of the analysis: the named substrings, the main pattern, the number of number signs and the
/// selectors.
pub struct AnalysisView {
    pub named: Seq<(Seq<char>, Seq<PartView>)>,
    pub main: Seq<PartView>,
    pub numbers: nat,
    pub selectors: Seq<Seq<(Seq<char>, usize)>>,
}

/// The semantic analysis of a tree (tokens and nodes) for the locale, with the registered commands and the
/// outcomes of the commands called: the named substrings first, then the main string.
pub open spec fn analyse(
    tokens: Seq<Token>,
    nodes: Seq<NodeView>,
    locale: Seq<char>,
    registry: Seq<Seq<char>>,
    calls: Seq<CommandCall>,
) -> Result<AnalysisView, FormatterErrorView> {
    let root = nodes[0].children;
    let st0 = AnalysisState { numbers: 0, selectors: Seq::empty(), calls: 0 };
    if nodes[0].node_type != NodeType::Root {
        Err(FormatterErrorView::InvalidRoot)
    } else if root.len() == 0 {
        Err(FormatterErrorView::FirstChild(NodeType::Root))
    } else {
        let named_result = if root.len() > 1 {
            if !nodes[root[1] as int].node_type.spec_allow_children() {
                Err(FormatterErrorView::RetrieveChildren(nodes[root[1] as int].node_type))
            } else {
                named_patterns(tokens, nodes, nodes[root[1] as int].children, locale, registry, calls, Seq::empty(), st0)
            }
        } else {
            Ok((Seq::empty(), st0))
        };
        match named_result {
            Err(e) => Err(e),
            Ok((named, st1)) => if !nodes[root[0] as int].node_type.spec_allow_children() {
                Err(FormatterErrorView::RetrieveChildren(nodes[root[0] as int].node_type))
            } else {
                match string_parts(
                    tokens,
                    nodes,
                    nodes[root[0] as int].children,
                    true,
                    pattern_names(named),
                    locale,
                    registry,
                    calls,
                    Seq::empty(),
                    st1,
                ) {
                    Err(e) => Err(e),
                    Ok((main, st2)) => Ok(
                        AnalysisView { named, main, numbers: st2.numbers, selectors: st2.selectors },
                    ),
                }
            },
        }
    }
}

/// The views of string pairs.
pub open spec fn pairs_view(pairs: Seq<(String, String)>) -> Seq<(Seq<char>, Seq<char>)> {
    pairs.map_values(|p: (String, String)| (p.0@, p.1@))
}

/// The views of resolved selectors.
pub open spec fn resolved_view(pairs: Seq<(String, usize)>) -> Seq<(Seq<char>, usize)> {
    pairs.map_values(|p: (String, usize)| (p.0@, p.1))
}

/// The views of the selectors of all the selecting patterns.
pub open spec fn selectors_view(selectors: Seq<Vec<(String, usize)>>) -> Seq<Seq<(Seq<char>, usize)>> {
    selectors.map_values(|v: Vec<(String, usize)>| resolved_view(v@))
}

/// The views of parts.
pub open spec fn parts_view(parts: Seq<PatternPart>) -> Seq<PartView> {
    parts.map_values(|p: PatternPart| p@)
}

/// The first occurrence of a key stays the first occurrence in a longer sequence.
proof fn lemma_key_index_extend<V>(pairs: Seq<(Seq<char>, V)>, key: Seq<char>, j: int)
    requires
        0 <= j <= pairs.len(),
        key_index(pairs.take(j), key) is Some,
    ensures
        key_index(pairs, key) == key_index(pairs.take(j), key),
    decreases pairs.len() - j,
{
    if j < pairs.len() {
        assert(pairs.take(j + 1).drop_last() =~= pairs.take(j));
        lemma_key_index_extend(pairs, key, j + 1);
    } else {
        assert(pairs.take(j) =~= pairs);
    }
}

/// No occurrence of a key in a sequence.
proof fn lemma_key_index_none<V>(pairs: Seq<(Seq<char>, V)>, key: Seq<char>)
    requires
        forall|k: int| 0 <= k < pairs.len() ==> pairs[k].0 != key,
    ensures
        key_index(pairs, key) is None,
    decreases pairs.len(),
{
    if pairs.len() > 0 {
        lemma_key_index_none(pairs.drop_last(), key);
    }
}

/// The first occurrence of a name stays the first occurrence in a longer sequence.
proof fn lemma_name_index_extend(names: Seq<Seq<char>>, name: Seq<char>, j: int)
    requires
        0 <= j <= names.len(),
        name_index(names.take(j), name) is Some,
    ensures
        name_index(names, name) == name_index(names.take(j), name),
    decreases names.len() - j,
{
    if j < names.len() {
        assert(names.take(j + 1).drop_last() =~= names.take(j));
        lemma_name_index_extend(names, name, j + 1);
    } else {
        assert(names.take(j) =~= names);
    }
}

/// No occurrence of a name in a sequence.
proof fn lemma_name_index_none(names: Seq<Seq<char>>, name: Seq<char>)
    requires
        !names.contains(name),
    ensures
        name_index(names, name) is None,
    decreases names.len(),
{
    if names.len() > 0 {
        assert(!names.drop_last().contains(name)) by {
            if names.drop_last().contains(name) {
                let k = choose|k: int| 0 <= k < names.drop_last().len() && names.drop_last()[k] == name;
                assert(names[k] == name);
            }
        }
        lemma_name_index_none(names.drop_last(), name);
    }
}

/// The position of the first string with the text.
fn find_string(strings: &Vec<String>, text: &str) -> (result: Option<usize>)
    ensures
        match name_index(strings_view(strings@), text@) {
            Some(i) => result matches Some(r) && r as int == i,
            None => result is None,
        },
{
    let ghost names = strings_view(strings@);
    let mut i: usize = 0;
    while i < strings.len()
        invariant
            0 <= i <= strings@.len(),
            names == strings_view(strings@),
            names.len() == strings@.len(),
            forall|k: int| 0 <= k < i ==> names[k] != text@,
        decreases strings.len() - i,
    {
        if crate::values::str_eq(strings[i].as_str(), text) {
            proof {
                assert(!names.take(i as int).contains(text@)) by {
                    if names.take(i as int).contains(text@) {
                        let k = choose|k: int| 0 <= k < i && names.take(i as int)[k] == text@;
                        assert(names[k] != text@);
                    }
                }
                lemma_name_index_none(names.take(i as int), text@);
                assert(names.take(i + 1).drop_last() =~= names.take(i as int));
                lemma_name_index_extend(names, text@, i + 1);
            }
            return Some(i);
        }
        i = i + 1;
    }
    proof {
        assert(!names.contains(text@)) by {
            if names.contains(text@) {
                let k = choose|k: int| 0 <= k < names.len() && names[k] == text@;
                assert(names[k] != text@);
            }
        }
        lemma_name_index_none(names, text@);
    }
    None
}

/// Inserts the pair as [`insert_pair`] states.
fn insert_string_pair(pairs: &mut Vec<(String, String)>, key: String, value: String)
    ensures
        pairs_view(final(pairs)@) == insert_pair(pairs_view(old(pairs)@), key@, value@),
{
    let ghost v = pairs_view(pairs@);
    let mut i: usize = 0;
    while i < pairs.len()
        invariant
            0 <= i <= pairs@.len(),
            v == pairs_view(pairs@),
            v.len() == pairs@.len(),
            forall|k: int| 0 <= k < i ==> v[k].0 != key@,
            pairs@ == old(pairs)@,
        decreases pairs.len() - i,
    {
        if crate::values::str_eq(pairs[i].0.as_str(), key.as_str()) {
            proof {
                lemma_key_index_none(v.take(i as int), key@);
                assert(v.take(i + 1).drop_last() =~= v.take(i as int));
                lemma_key_index_extend(v, key@, i + 1);
            }
            let ghost kv = key@;
            let ghost vv = value@;
            pairs.set(i, (key, value));
            assert(pairs_view(pairs@) =~= v.update(i as int, (kv, vv)));
            return;
        }
        i = i + 1;
    }
    proof {
        lemma_key_index_none(v, key@);
    }
    let ghost kv = key@;
    let ghost vv = value@;
    pairs.push((key, value));
    assert(pairs_view(pairs@) =~= v.push((kv, vv)));
}

/// The text of a leaf, as [`leaf_text`].
fn leaf_string(tree: &Tree, node: usize) -> (result: String)
    requires
        tree.wf(),
        node < tree.node_view().len(),
    ensures
        result@ == leaf_text(tree.token_view(), tree.node_view()[node as int].tokens),
{
    let indices = tree.node_tokens(node);
    let mut s = String::new();
    let mut i: usize = 0;
    while i < indices.len()
        invariant
            tree.wf(),
            node < tree.node_view().len(),
            indices@ == tree.node_view()[node as int].tokens,
            0 <= i <= indices@.len(),
            s@ == leaf_text(tree.token_view(), indices@.take(i as int)),
        decreases indices.len() - i,
    {
        assert(tree.node_view()[node as int].tokens[i as int] < tree.token_view().len());
        let t = tree.token(indices[i]);
        s.append(t.string.as_str());
        assert(indices@.take(i + 1).drop_last() =~= indices@.take(i as int));
        i = i + 1;
    }
    assert(indices@.take(indices@.len() as int) =~= indices@);
    s
}

/// The string of the first token of a node, as [`first_token`].
fn first_token_string(tree: &Tree, node: usize) -> (result: Result<String, FormatterError>)
    requires
        tree.wf(),
        node < tree.node_view().len(),
    ensures
        match first_token(tree.token_view(), tree.node_view(), node) {
            Ok(s) => result matches Ok(r) && r@ == s,
            Err(e) => result matches Err(err) && err@ == e,
        },
{
    let indices = tree.node_tokens(node);
    if indices.len() == 0 {
        return Err(FormatterError::RetrieveNodeToken(*tree.node_type(node)));
    }
    assert(tree.node_view()[node as int].tokens[0] < tree.token_view().len());
    Ok(tree.token(indices[0]).string.clone())
}

/// The string of an Identifier node, as [`identifier`].
fn identifier_string(tree: &Tree, node: usize) -> (result: Result<String, FormatterError>)
    requires
        tree.wf(),
        node < tree.node_view().len(),
    ensures
        match identifier(tree.token_view(), tree.node_view(), node) {
            Ok(s) => result matches Ok(r) && r@ == s,
            Err(e) => result matches Err(err) && err@ == e,
        },
{
    if *tree.node_type(node) != NodeType::Identifier {
        return Err(FormatterError::NodeNotFound(NodeType::Identifier));
    }
    first_token_string(tree, node)
}

/// The selector pair of a Selector node, as [`selector_pair`].
fn selector_pair_strings(tree: &Tree, node: usize) -> (result: Result<(String, String), FormatterError>)
    requires
        tree.wf(),
        node < tree.node_view().len(),
    ensures
        match selector_pair(tree.token_view(), tree.node_view(), node) {
            Ok((k, v)) => result matches Ok(r) && r.0@ == k && r.1@ == v,
            Err(e) => result matches Err(err) && err@ == e,
        },
{
    if *tree.node_type(node) != NodeType::Selector {
        return Err(FormatterError::NodeNotFound(NodeType::Selector));
    }
    let ch = tree.children(node);
    if ch.len() == 0 {
        return Err(FormatterError::FirstChild(NodeType::Selector));
    }
    assert(tree.node_view()[node as int].children[0] < tree.node_view().len());
    assert(tree.node_view()[node as int].children[ch.len() - 1] < tree.node_view().len());
    let key = identifier_string(tree, ch[0])?;
    let value = identifier_string(tree, ch[ch.len() - 1])?;
    Ok((key, value))
}

/// The selector pairs of a Pattern node, from its third child on, as [`pattern_pairs`].
fn pattern_pair_strings(tree: &Tree, node: usize) -> (result: Result<Vec<(String, String)>, FormatterError>)
    requires
        tree.wf(),
        node < tree.node_view().len(),
        tree.node_view()[node as int].node_type == NodeType::Pattern,
        tree.node_view()[node as int].children.len() >= 2,
    ensures
        match pattern_pairs(
            tree.token_view(),
            tree.node_view(),
            tree.node_view()[node as int].children.skip(2),
            Seq::empty(),
        ) {
            Ok(pairs) => result matches Ok(r) && pairs_view(r@) == pairs,
            Err(e) => result matches Err(err) && err@ == e,
        },
{
    let ch = tree.children(node);
    let ghost selectors = ch@.skip(2);
    let mut pairs: Vec<(String, String)> = Vec::new();
    let mut k: usize = 2;
    assert(selectors.skip(0) =~= selectors);
    assert(pairs_view(pairs@) =~= Seq::<(Seq<char>, Seq<char>)>::empty());
    while k < ch.len()
        invariant
            tree.wf(),
            node < tree.node_view().len(),
            ch@ == tree.node_view()[node as int].children,
            selectors == ch@.skip(2),
            2 <= k <= ch@.len(),
            pattern_pairs(tree.token_view(), tree.node_view(), selectors, Seq::empty()) == pattern_pairs(
                tree.token_view(),
                tree.node_view(),
                selectors.skip(k - 2),
                pairs_view(pairs@),
            ),
        decreases ch.len() - k,
    {
        assert(tree.node_view()[node as int].children[k as int] < tree.node_view().len());
        assert(selectors.skip(k - 2).drop_first() =~= selectors.skip(k - 1));
        assert(selectors.skip(k - 2)[0] == ch@[k as int]);
        let (key, value) = selector_pair_strings(tree, ch[k])?;
        insert_string_pair(&mut pairs, key, value);
        k = k + 1;
    }
    assert(selectors.skip(ch.len() - 2) =~= Seq::<usize>::empty());
    Ok(pairs)
}

/// The options of a `decimal` pattern, as [`decimal_options`].
fn decimal_option_values(pairs: &Vec<(String, String)>, placeholder: &String) -> (result: Result<
    (Option<SignOption>, Option<GroupingStrategy>),
    FormatterError,
>)
    ensures
        match decimal_options(pairs_view(pairs@), placeholder@, (None, None)) {
            Ok(o) => result matches Ok(r) && r == o,
            Err(e) => result matches Err(err) && err@ == e,
        },
{
    let ghost pv = pairs_view(pairs@);
    let mut sign: Option<SignOption> = None;
    let mut group: Option<GroupingStrategy> = None;
    let mut k: usize = 0;
    assert(pv.skip(0) =~= pv);
    while k < pairs.len()
        invariant
            pv == pairs_view(pairs@),
            pv.len() == pairs@.len(),
            0 <= k <= pairs@.len(),
            decimal_options(pv, placeholder@, (None, None)) == decimal_options(pv.skip(k as int), placeholder@, (sign, group)),
        decreases pairs.len() - k,
    {
        assert(pv.skip(k as int).drop_first() =~= pv.skip(k + 1));
        assert(pv.skip(k as int)[0] == pv[k as int]);
        let key = pairs[k].0.as_str();
        let value = pairs[k].1.as_str();
        if crate::values::str_eq(key, "sign") {
            sign = Some(crate::options::sign_display(value)?);
        } else if crate::values::str_eq(key, "group") {
            group = Some(crate::options::decimal_grouping_display(value)?);
        } else {
            return Err(FormatterError::InvalidOption(value.to_owned(), "decimal".to_owned(), placeholder.clone()));
        }
        k = k + 1;
    }
    assert(pv.skip(k as int) =~= Seq::<(Seq<char>, Seq<char>)>::empty());
    Ok((sign, group))
}

/// The options of a `date_time` pattern, as [`date_time_options`].
fn date_time_option_values(pairs: &Vec<(String, String)>, placeholder: &String, locale: &String) -> (result:
    Result<(Option<DateLength>, Option<TimeLength>, Option<String>), FormatterError>)
    ensures
        match date_time_options(pairs_view(pairs@), placeholder@, locale@, (None, None, None)) {
            Ok(o) => result matches Ok(r) && r.0 == o.0 && r.1 == o.1 && match r.2 {
                Some(c) => o.2 == Some(c@),
                None => o.2 is None,
            },
            Err(e) => result matches Err(err) && err@ == e,
        },
{
    let ghost pv = pairs_view(pairs@);
    let mut date: Option<DateLength> = None;
    let mut time: Option<TimeLength> = None;
    let mut calendar: Option<String> = None;
    let mut k: usize = 0;
    assert(pv.skip(0) =~= pv);
    while k < pairs.len()
        invariant
            pv == pairs_view(pairs@),
            pv.len() == pairs@.len(),
            0 <= k <= pairs@.len(),
            date_time_options(pv, placeholder@, locale@, (None, None, None)) == date_time_options(
                pv.skip(k as int),
                placeholder@,
                locale@,
                (
                    date,
                    time,
                    match calendar {
                        Some(c) => Some(c@),
                        None => None,
                    },
                ),
            ),
        decreases pairs.len() - k,
    {
        assert(pv.skip(k as int).drop_first() =~= pv.skip(k + 1));
        assert(pv.skip(k as int)[0] == pv[k as int]);
        let key = pairs[k].0.as_str();
        let value = pairs[k].1.as_str();
        if crate::values::str_eq(key, "date") {
            date = Some(crate::options::date_length(value)?);
        } else if crate::values::str_eq(key, "time") {
            time = Some(crate::options::time_length(value)?);
        } else if crate::values::str_eq(key, "calendar") {
            if !crate::options::calendar(value) {
                return Err(FormatterError::InvalidOption(value.to_owned(), "ordinal".to_owned(), placeholder.clone()));
            }
            let with_calendar = crate::options::calendar_locale(locale.as_str(), value);
            calendar = Some(crate::icu::parse_locale(with_calendar.as_str())?);
        } else {
            return Err(FormatterError::InvalidOption(value.to_owned(), "date-time".to_owned(), placeholder.clone()));
        }
        k = k + 1;
    }
    assert(pv.skip(k as int) =~= Seq::<(Seq<char>, Seq<char>)>::empty());
    Ok((date, time, calendar))
}

/// The selectors of a selecting pattern, as [`complex_selectors`].
fn complex_selector_values(
    pairs: &Vec<(String, String)>,
    names: &Vec<String>,
    keyword: &str,
    placeholder: &String,
    plural: bool,
) -> (result: Result<(Vec<(String, usize)>, bool), FormatterError>)
    ensures
        match complex_selectors(pairs_view(pairs@), strings_view(names@), keyword@, placeholder@, plural, (Seq::empty(), false)) {
            Ok(o) => result matches Ok(r) && resolved_view(r.0@) == o.0 && r.1 == o.1,
            Err(e) => result matches Err(err) && err@ == e,
        },
{
    let ghost pv = pairs_view(pairs@);
    let mut resolved: Vec<(String, usize)> = Vec::new();
    let mut other = false;
    let mut k: usize = 0;
    assert(pv.skip(0) =~= pv);
    assert(resolved_view(resolved@) =~= Seq::<(Seq<char>, usize)>::empty());
    while k < pairs.len()
        invariant
            pv == pairs_view(pairs@),
            pv.len() == pairs@.len(),
            0 <= k <= pairs@.len(),
            complex_selectors(pv, strings_view(names@), keyword@, placeholder@, plural, (Seq::empty(), false))
                == complex_selectors(pv.skip(k as int), strings_view(names@), keyword@, placeholder@, plural, (resolved_view(resolved@), other)),
        decreases pairs.len() - k,
    {
        assert(pv.skip(k as int).drop_first() =~= pv.skip(k + 1));
        assert(pv.skip(k as int)[0] == pv[k as int]);
        let selector = &pairs[k].0;
        let named = &pairs[k].1;
        if plural && !crate::options::plural_selector(selector.as_str()) {
            return Err(FormatterError::InvalidSelector(selector.clone(), keyword.to_owned(), placeholder.clone()));
        }
        match find_string(names, named.as_str()) {
            None => {
                return Err(FormatterError::SelectorNamed(named.clone(), selector.clone(), placeholder.clone()));
            },
            Some(i) => {
                let ghost before = resolved_view(resolved@);
                if crate::values::str_eq(selector.as_str(), "other") {
                    other = true;
                }
                resolved.push((selector.clone(), i));
                assert(resolved_view(resolved@) =~= before.push((selector@, i)));
            },
        }
        k = k + 1;
    }
    assert(pv.skip(k as int) =~= Seq::<(Seq<char>, Seq<char>)>::empty());
    Ok((resolved, other))
}

/// The part of a Pattern node, with its selectors appended to `selectors`, as [`pattern_part`].
fn pattern_part_of(
    tree: &Tree,
    node: usize,
    names: &Vec<String>,
    locale: &String,
    selectors: &mut Vec<Vec<(String, usize)>>,
    Ghost(st): Ghost<AnalysisState>,
) -> (result: Result<PatternPart, FormatterError>)
    requires
        tree.wf(),
        node < tree.node_view().len(),
        tree.node_view()[node as int].node_type == NodeType::Pattern,
        st.selectors == selectors_view(old(selectors)@),
    ensures
        match pattern_part(tree.token_view(), tree.node_view(), node, strings_view(names@), locale@, st) {
            Ok((p, st1)) => result matches Ok(r) && r@ == p && selectors_view(final(selectors)@) == st1.selectors,
            Err(e) => result matches Err(err) && err@ == e,
        },
{
    let ch = tree.children(node);
    if ch.len() == 0 {
        return Err(FormatterError::NoChildren(NodeType::Pattern));
    }
    assert(tree.node_view()[node as int].children[0] < tree.node_view().len());
    let placeholder = identifier_string(tree, ch[0])?;
    if ch.len() == 1 {
        return Ok(PatternPart::PatternString(placeholder));
    }
    assert(tree.node_view()[node as int].children[1] < tree.node_view().len());
    let keyword = identifier_string(tree, ch[1])?;
    let kw = keyword.as_str();
    proof {
        reveal_strlit("decimal");
        reveal_strlit("date_time");
        reveal_strlit("ordinal");
        reveal_strlit("plural");
        reveal_strlit("select");
    }
    if crate::values::str_eq(kw, "decimal") {
        let pairs = pattern_pair_strings(tree, node)?;
        let (sign, group) = decimal_option_values(&pairs, &placeholder)?;
        Ok(PatternPart::PatternDecimal { placeholder, sign, group })
    } else if crate::values::str_eq(kw, "date_time") {
        let pairs = pattern_pair_strings(tree, node)?;
        let (length_date, length_time, calendar) = date_time_option_values(&pairs, &placeholder, locale)?;
        Ok(PatternPart::PatternDateTime { placeholder, length_date, length_time, calendar })
    } else if crate::values::str_eq(kw, "ordinal") || crate::values::str_eq(kw, "plural") || crate::values::str_eq(
        kw,
        "select",
    ) {
        let complex = if crate::values::str_eq(kw, "ordinal") {
            ComplexType::Ordinal
        } else if crate::values::str_eq(kw, "plural") {
            ComplexType::Plural
        } else {
            ComplexType::Select
        };
        let pairs = pattern_pair_strings(tree, node)?;
        let plural = complex != ComplexType::Select;
        let (resolved, other) = complex_selector_values(&pairs, names, kw, &placeholder, plural)?;
        if plural && !other {
            return Err(FormatterError::SelectorOther(keyword.clone(), placeholder));
        }
        let index = selectors.len();
        let ghost before = selectors_view(selectors@);
        let ghost rv = resolved_view(resolved@);
        selectors.push(resolved);
        assert(selectors_view(selectors@) =~= before.push(rv));
        Ok(PatternPart::PatternComplex { placeholder, complex, selectors: index })
    } else {
        Err(FormatterError::InvalidKeyword(keyword.clone(), placeholder))
    }
}

/// `outs` begins with the calls `calls`.
pub open spec fn extends<T>(outs: Seq<T>, calls: Seq<T>) -> bool {
    calls.len() <= outs.len() && forall|i: int| 0 <= i < calls.len() ==> outs[i] == calls[i]
}

proof fn lemma_extends_trans<T>(a: Seq<T>, b: Seq<T>, c: Seq<T>)
    requires
        extends(a, b),
        extends(b, c),
    ensures
        extends(a, c),
{
}

/// The parameters of a command, from child `start` of the Command node on, as [`command_parameters`].
fn command_parameter_strings(tree: &Tree, node: usize, start: usize) -> (result: Result<Vec<String>, FormatterError>)
    requires
        tree.wf(),
        node < tree.node_view().len(),
        tree.node_view()[node as int].node_type == NodeType::Command,
        start <= tree.node_view()[node as int].children.len(),
    ensures
        match command_parameters(
            tree.token_view(),
            tree.node_view(),
            tree.node_view()[node as int].children.skip(start as int),
            Seq::empty(),
        ) {
            Ok(p) => result matches Ok(r) && strings_view(r@) == p,
            Err(e) => result matches Err(err) && err@ == e,
        },
{
    let ch = tree.children(node);
    let ghost params = ch@.skip(start as int);
    let mut strings: Vec<String> = Vec::new();
    let mut k: usize = start;
    assert(params.skip(0) =~= params);
    assert(strings_view(strings@) =~= Seq::<Seq<char>>::empty());
    while k < ch.len()
        invariant
            tree.wf(),
            node < tree.node_view().len(),
            ch@ == tree.node_view()[node as int].children,
            params == ch@.skip(start as int),
            start <= k <= ch@.len(),
            command_parameters(tree.token_view(), tree.node_view(), params, Seq::empty()) == command_parameters(
                tree.token_view(),
                tree.node_view(),
                params.skip(k - start),
                strings_view(strings@),
            ),
        decreases ch.len() - k,
    {
        assert(tree.node_view()[node as int].children[k as int] < tree.node_view().len());
        assert(params.skip(k - start).drop_first() =~= params.skip(k + 1 - start));
        assert(params.skip(k - start)[0] == ch@[k as int]);
        let p = ch[k];
        let ghost before = strings_view(strings@);
        if *tree.node_type(p) == NodeType::Identifier {
            let s = first_token_string(tree, p)?;
            let ghost sv = s@;
            strings.push(s);
            assert(strings_view(strings@) =~= before.push(sv));
        } else if *tree.node_type(p) == NodeType::Text {
            let s = leaf_string(tree, p);
            let ghost sv = s@;
            strings.push(s);
            assert(strings_view(strings@) =~= before.push(sv));
        } else {
            return Err(FormatterError::InvalidNode(NodeType::Command));
        }
        k = k + 1;
    }
    assert(params.skip(k - start) =~= Seq::<usize>::empty());
    Ok(strings)
}

/// The command parameters as placeholder values.
fn string_values(strings: &Vec<String>) -> (result: Vec<crate::values::PlaceholderValue>)
    ensures
        result@.len() == strings@.len(),
        forall|i: int| 0 <= i < strings@.len() ==> (#[trigger] result@[i] matches crate::values::PlaceholderValue::String(s) && s@ == strings@[i]@),
{
    let mut values: Vec<crate::values::PlaceholderValue> = Vec::new();
    let mut k: usize = 0;
    while k < strings.len()
        invariant
            0 <= k <= strings@.len(),
            values@.len() == k,
            forall|i: int| 0 <= i < k ==> (#[trigger] values@[i] matches crate::values::PlaceholderValue::String(s) && s@ == strings@[i]@),
        decreases strings.len() - k,
    {
        values.push(crate::values::PlaceholderValue::String(strings[k].clone()));
        k = k + 1;
    }
    values
}

/// The part of a Command node, as [`command_part`]: a command called now is recorded in the calls.
fn command_part_of<C: Command>(
    tree: &Tree,
    node: usize,
    registry: &CommandRegistry<C>,
    Ghost(st): Ghost<AnalysisState>,
    Ghost(calls): Ghost<Seq<CommandCall>>,
) -> (result: (Result<PatternPart, FormatterError>, Ghost<Seq<CommandCall>>))
    requires
        tree.wf(),
        node < tree.node_view().len(),
        tree.node_view()[node as int].node_type == NodeType::Command,
        st.calls == calls.len(),
    ensures
        calls_registered(calls, registry.names(), registry.commands()) ==> calls_registered(
            result.1@,
            registry.names(),
            registry.commands(),
        ),
        extends(result.1@, calls),
        forall|outs: Seq<CommandCall>|
            #![trigger command_part(tree.token_view(), tree.node_view(), node, registry.names(), outs, st)]
            extends(outs, result.1@) ==> match command_part(
                tree.token_view(),
                tree.node_view(),
                node,
                registry.names(),
                outs,
                st,
            ) {
                Ok((p, st1)) => result.0 matches Ok(r) && r@ == p && st1 == AnalysisState {
                    calls: result.1@.len(),
                    ..st
                },
                Err(e) => result.0 matches Err(err) && err@ == e,
            },
{
    let ch = tree.children(node);
    if ch.len() == 0 {
        return (Err(FormatterError::NoChildren(NodeType::Pattern)), Ghost(calls));
    }
    assert(tree.node_view()[node as int].children[0] < tree.node_view().len());
    let command = match identifier_string(tree, ch[0]) {
        Ok(c) => c,
        Err(e) => return (Err(e), Ghost(calls)),
    };
    let delay = if ch.len() > 1 {
        assert(tree.node_view()[node as int].children[1] < tree.node_view().len());
        *tree.node_type(ch[1]) == NodeType::NumberSign
    } else {
        false
    };
    let start: usize = if delay {
        2
    } else {
        1
    };
    let params = match command_parameter_strings(tree, node, start) {
        Ok(p) => p,
        Err(e) => return (Err(e), Ghost(calls)),
    };
    let mut strings: Vec<String> = Vec::new();
    strings.push(command.clone());
    let mut k: usize = 0;
    while k < params.len()
        invariant
            0 <= k <= params@.len(),
            strings_view(strings@) == seq![command@] + strings_view(params@).take(k as int),
        decreases params.len() - k,
    {
        let ghost before = strings_view(strings@);
        strings.push(params[k].clone());
        assert(strings_view(strings@) =~= before.push(params@[k as int]@));
        assert(strings_view(params@).take(k + 1) =~= strings_view(params@).take(k as int).push(params@[k as int]@));
        k = k + 1;
    }
    assert(strings_view(params@).take(params@.len() as int) =~= strings_view(params@));
    if delay {
        return (Ok(PatternPart::Command { strings }), Ghost(calls));
    }
    if !registry.contains(command.as_str()) {
        return (Err(FormatterError::Command(CommandError::NotFound(command))), Ghost(calls));
    }
    let values = string_values(&strings);
    let ghost values_view = values@;
    let outcome = registry.run(command.as_str(), values);
    let ghost record = CommandCall {
        command: command@,
        parameters: strings_view(strings@),
        outcome: match &outcome {
            Ok(t) => Ok(t@),
            Err(e) => Err(e@),
        },
    };
    let ghost after = calls.push(record);
    proof {
        let names = registry.names();
        let commands = registry.commands();
        assert(parameter_views(values_view) =~= static_parameters(strings_view(strings@)));
        if calls_registered(calls, names, commands) {
            assert forall|k: int| 0 <= k < after.len() implies registered_outcome(
                names,
                commands,
                (#[trigger] after[k]).command,
                static_parameters(after[k].parameters),
                after[k].outcome,
            ) by {
                if k < calls.len() {
                    assert(after[k] == calls[k]);
                }
            }
        }
    }
    match outcome {
        Ok(text) => (Ok(PatternPart::Text(text)), Ghost(after)),
        Err(e) => (Err(FormatterError::Command(e)), Ghost(after)),
    }
}

/// The state of the analysis held by the builder: the number strings, the selectors and the calls.
pub open spec fn state_of(numbers: Seq<String>, selectors: Seq<Vec<(String, usize)>>, calls: Seq<CommandCall>) -> AnalysisState {
    AnalysisState { numbers: numbers.len(), selectors: selectors_view(selectors), calls: calls.len() }
}

/// The part of a child of a String node, as [`child_part`].
fn child_part_of<C: Command>(
    tree: &Tree,
    node: usize,
    main: bool,
    names: &Vec<String>,
    locale: &String,
    registry: &CommandRegistry<C>,
    numbers: &mut Vec<String>,
    selectors: &mut Vec<Vec<(String, usize)>>,
    Ghost(calls): Ghost<Seq<CommandCall>>,
) -> (result: (Result<PatternPart, FormatterError>, Ghost<Seq<CommandCall>>))
    requires
        tree.wf(),
        node < tree.node_view().len(),
    ensures
        calls_registered(calls, registry.names(), registry.commands()) ==> calls_registered(
            result.1@,
            registry.names(),
            registry.commands(),
        ),
        extends(result.1@, calls),
        forall|outs: Seq<CommandCall>|
            #![trigger child_part(tree.token_view(), tree.node_view(), node, main, strings_view(names@), locale@, registry.names(), outs, state_of(old(numbers)@, old(selectors)@, calls))]
            extends(outs, result.1@) ==> match child_part(
                tree.token_view(),
                tree.node_view(),
                node,
                main,
                strings_view(names@),
                locale@,
                registry.names(),
                outs,
                state_of(old(numbers)@, old(selectors)@, calls),
            ) {
                Ok((p, st1)) => result.0 matches Ok(r) && r@ == p && st1 == state_of(final(numbers)@, final(selectors)@, result.1@),
                Err(e) => result.0 matches Err(err) && err@ == e,
            },
{
    let ghost st = state_of(numbers@, selectors@, calls);
    let t = *tree.node_type(node);
    if t == NodeType::Text {
        (Ok(PatternPart::Text(leaf_string(tree, node))), Ghost(calls))
    } else if t == NodeType::NumberSign && !main {
        let index = numbers.len();
        numbers.push(String::new());
        (Ok(PatternPart::NumberSign(index)), Ghost(calls))
    } else if t == NodeType::Pattern {
        (pattern_part_of(tree, node, names, locale, selectors, Ghost(st)), Ghost(calls))
    } else if t == NodeType::Command {
        command_part_of(tree, node, registry, Ghost(st), Ghost(calls))
    } else {
        (Err(FormatterError::InvalidNode(NodeType::String)), Ghost(calls))
    }
}

/// The parts of the children of a String node, as [`string_parts`].
fn string_parts_of<C: Command>(
    tree: &Tree,
    node: usize,
    main: bool,
    names: &Vec<String>,
    locale: &String,
    registry: &CommandRegistry<C>,
    numbers: &mut Vec<String>,
    selectors: &mut Vec<Vec<(String, usize)>>,
    Ghost(calls): Ghost<Seq<CommandCall>>,
) -> (result: (Result<Vec<PatternPart>, FormatterError>, Ghost<Seq<CommandCall>>))
    requires
        tree.wf(),
        node < tree.node_view().len(),
        tree.node_view()[node as int].node_type.spec_allow_children(),
    ensures
        calls_registered(calls, registry.names(), registry.commands()) ==> calls_registered(
            result.1@,
            registry.names(),
            registry.commands(),
        ),
        extends(result.1@, calls),
        forall|outs: Seq<CommandCall>|
            #![trigger string_parts(tree.token_view(), tree.node_view(), tree.node_view()[node as int].children, main, strings_view(names@), locale@, registry.names(), outs, Seq::empty(), state_of(old(numbers)@, old(selectors)@, calls))]
            extends(outs, result.1@) ==> match string_parts(
                tree.token_view(),
                tree.node_view(),
                tree.node_view()[node as int].children,
                main,
                strings_view(names@),
                locale@,
                registry.names(),
                outs,
                Seq::empty(),
                state_of(old(numbers)@, old(selectors)@, calls),
            ) {
                Ok((p, st1)) => result.0 matches Ok(r) && parts_view(r@) == p && st1 == state_of(final(numbers)@, final(selectors)@, result.1@),
                Err(e) => result.0 matches Err(err) && err@ == e,
            },
{
    let ghost tokens = tree.token_view();
    let ghost nodes = tree.node_view();
    let ghost nv = strings_view(names@);
    let ghost st0 = state_of(numbers@, selectors@, calls);
    let ch = tree.children(node);
    let ghost children = ch@;
    let mut parts: Vec<PatternPart> = Vec::new();
    let mut k: usize = 0;
    let ghost mut now = calls;
    assert(children.skip(0) =~= children);
    assert(parts_view(parts@) =~= Seq::<PartView>::empty());
    while k < ch.len()
        invariant
            tree.wf(),
            node < nodes.len(),
            tokens == tree.token_view(),
            nodes == tree.node_view(),
            nv == strings_view(names@),
            children == ch@,
            children == nodes[node as int].children,
            0 <= k <= children.len(),
            extends(now, calls),
            st0 == state_of(old(numbers)@, old(selectors)@, calls),
            forall|outs: Seq<CommandCall>|
                #![trigger string_parts(tokens, nodes, children.skip(k as int), main, nv, locale@, registry.names(), outs, parts_view(parts@), state_of(numbers@, selectors@, now))]
                extends(outs, now) ==> string_parts(tokens, nodes, children, main, nv, locale@, registry.names(), outs, Seq::empty(), st0)
                    == string_parts(tokens, nodes, children.skip(k as int), main, nv, locale@, registry.names(), outs, parts_view(parts@), state_of(numbers@, selectors@, now)),
            calls_registered(calls, registry.names(), registry.commands()) ==> calls_registered(
                now,
                registry.names(),
                registry.commands(),
            ),
        decreases ch.len() - k,
    {
        assert(nodes[node as int].children[k as int] < nodes.len());
        assert(children.skip(k as int).drop_first() =~= children.skip(k + 1));
        assert(children.skip(k as int)[0] == children[k as int]);
        let ghost stk = state_of(numbers@, selectors@, now);
        let ghost pk = parts_view(parts@);
        let (part, Ghost(next)) = child_part_of(tree, ch[k], main, names, locale, registry, numbers, selectors, Ghost(now));
        match part {
            Ok(p) => {
                let ghost pv = p@;
                parts.push(p);
                assert(parts_view(parts@) =~= pk.push(pv));
                proof {
                    let ghost stn = state_of(numbers@, selectors@, next);
                    assert forall|outs: Seq<CommandCall>| extends(outs, next) implies string_parts(tokens, nodes, children, main, nv, locale@, registry.names(), outs, Seq::empty(), st0)
                        == string_parts(tokens, nodes, children.skip(k + 1), main, nv, locale@, registry.names(), outs, parts_view(parts@), stn) by {
                        lemma_extends_trans(outs, next, now);
                        let a = string_parts(tokens, nodes, children.skip(k as int), main, nv, locale@, registry.names(), outs, pk, stk);
                        let c = child_part(tokens, nodes, children[k as int], main, nv, locale@, registry.names(), outs, stk);
                        assert(c matches Ok((pp, st1)) && pp == pv && st1 == stn);
                        assert(a == string_parts(tokens, nodes, children.skip(k + 1), main, nv, locale@, registry.names(), outs, pk.push(pv), stn));
                    }
                    lemma_extends_trans(next, now, calls);
                    now = next;
                }
            },
            Err(e) => {
                proof {
                    assert forall|outs: Seq<CommandCall>| extends(outs, next) implies string_parts(tokens, nodes, children, main, nv, locale@, registry.names(), outs, Seq::empty(), st0) matches Err(err) && err == e@ by {
                        lemma_extends_trans(outs, next, now);
                        let a = string_parts(tokens, nodes, children.skip(k as int), main, nv, locale@, registry.names(), outs, pk, stk);
                        let c = child_part(tokens, nodes, children[k as int], main, nv, locale@, registry.names(), outs, stk);
                        assert(c matches Err(err) && err == e@);
                        assert(a matches Err(err) && err == e@);
                    }
                    lemma_extends_trans(next, now, calls);
                }
                return (Err(e), Ghost(next));
            },
        }
        k = k + 1;
    }
    assert(children.skip(k as int) =~= Seq::<usize>::empty());
    proof {
        assert forall|outs: Seq<CommandCall>| extends(outs, now) implies string_parts(tokens, nodes, children, main, nv, locale@, registry.names(), outs, Seq::empty(), st0)
            == Ok::<(Seq<PartView>, AnalysisState), FormatterErrorView>((parts_view(parts@), state_of(numbers@, selectors@, now))) by {
            let a = string_parts(tokens, nodes, children.skip(k as int), main, nv, locale@, registry.names(), outs, parts_view(parts@), state_of(numbers@, selectors@, now));
        }
    }
    (Ok(parts), Ghost(now))
}

/// The views of named substrings.
pub open spec fn named_view(named: Seq<(String, Vec<PatternPart>)>) -> Seq<(Seq<char>, Seq<PartView>)> {
    named.map_values(|p: (String, Vec<PatternPart>)| (p.0@, parts_view(p.1@)))
}

proof fn lemma_name_index_contains(names: Seq<Seq<char>>, name: Seq<char>)
    ensures
        name_index(names, name) is Some <==> names.contains(name),
        name_index(names, name) matches Some(i) ==> 0 <= i < names.len() && names[i] == name,
    decreases names.len(),
{
    if names.len() > 0 {
        lemma_name_index_contains(names.drop_last(), name);
        if names.contains(name) && !names.drop_last().contains(name) {
            let k = choose|k: int| 0 <= k < names.len() && names[k] == name;
            if k < names.len() - 1 {
                assert(names.drop_last()[k] == name);
            }
        }
        if names.drop_last().contains(name) {
            let k = choose|k: int| 0 <= k < names.drop_last().len() && names.drop_last()[k] == name;
            assert(names[k] == name);
        }
    }
}

/// The named substring of a NamedString node, as [`named_pattern`].
fn named_pattern_of<C: Command>(
    tree: &Tree,
    node: usize,
    names: &Vec<String>,
    locale: &String,
    registry: &CommandRegistry<C>,
    numbers: &mut Vec<String>,
    selectors: &mut Vec<Vec<(String, usize)>>,
    Ghost(named): Ghost<Seq<(Seq<char>, Seq<PartView>)>>,
    Ghost(calls): Ghost<Seq<CommandCall>>,
) -> (result: (Result<(String, Vec<PatternPart>), FormatterError>, Ghost<Seq<CommandCall>>))
    requires
        tree.wf(),
        node < tree.node_view().len(),
        strings_view(names@) == pattern_names(named),
    ensures
        calls_registered(calls, registry.names(), registry.commands()) ==> calls_registered(
            result.1@,
            registry.names(),
            registry.commands(),
        ),
        extends(result.1@, calls),
        forall|outs: Seq<CommandCall>|
            #![trigger named_pattern(tree.token_view(), tree.node_view(), node, named, locale@, registry.names(), outs, state_of(old(numbers)@, old(selectors)@, calls))]
            extends(outs, result.1@) ==> match named_pattern(
                tree.token_view(),
                tree.node_view(),
                node,
                named,
                locale@,
                registry.names(),
                outs,
                state_of(old(numbers)@, old(selectors)@, calls),
            ) {
                Ok((p, st1)) => result.0 matches Ok(r) && r.0@ == p.0 && parts_view(r.1@) == p.1 && st1 == state_of(final(numbers)@, final(selectors)@, result.1@),
                Err(e) => result.0 matches Err(err) && err@ == e,
            },
{
    let t = *tree.node_type(node);
    if !t.allow_children() {
        return (Err(FormatterError::RetrieveChildren(t)), Ghost(calls));
    }
    let ch = tree.children(node);
    if ch.len() == 0 {
        return (Err(FormatterError::FirstChild(NodeType::NamedString)), Ghost(calls));
    }
    assert(tree.node_view()[node as int].children[0] < tree.node_view().len());
    assert(tree.node_view()[node as int].children[ch.len() - 1] < tree.node_view().len());
    let id = match first_token_string(tree, ch[0]) {
        Ok(id) => id,
        Err(e) => return (Err(e), Ghost(calls)),
    };
    proof {
        lemma_name_index_contains(strings_view(names@), id@);
        reveal_strlit("_");
    }
    if crate::values::str_eq(id.as_str(), "_") || find_string(names, id.as_str()).is_some() {
        return (Err(FormatterError::NamedStringIdentifier(id)), Ghost(calls));
    }
    let string = ch[ch.len() - 1];
    let st = *tree.node_type(string);
    if !st.allow_children() {
        return (Err(FormatterError::RetrieveChildren(st)), Ghost(calls));
    }
    let (parts, Ghost(next)) = string_parts_of(tree, string, false, names, locale, registry, numbers, selectors, Ghost(calls));
    match parts {
        Ok(parts) => (Ok((id, parts)), Ghost(next)),
        Err(e) => (Err(e), Ghost(next)),
    }
}

/// The named substrings of the NamedGroup node, as [`named_patterns`], with their names.
fn named_patterns_of<C: Command>(
    tree: &Tree,
    node: usize,
    locale: &String,
    registry: &CommandRegistry<C>,
    numbers: &mut Vec<String>,
    selectors: &mut Vec<Vec<(String, usize)>>,
    Ghost(calls): Ghost<Seq<CommandCall>>,
) -> (result: (Result<(Vec<(String, Vec<PatternPart>)>, Vec<String>), FormatterError>, Ghost<Seq<CommandCall>>))
    requires
        tree.wf(),
        node < tree.node_view().len(),
        tree.node_view()[node as int].node_type.spec_allow_children(),
    ensures
        calls_registered(calls, registry.names(), registry.commands()) ==> calls_registered(
            result.1@,
            registry.names(),
            registry.commands(),
        ),
        extends(result.1@, calls),
        forall|outs: Seq<CommandCall>|
            #![trigger named_patterns(tree.token_view(), tree.node_view(), tree.node_view()[node as int].children, locale@, registry.names(), outs, Seq::empty(), state_of(old(numbers)@, old(selectors)@, calls))]
            extends(outs, result.1@) ==> match named_patterns(
                tree.token_view(),
                tree.node_view(),
                tree.node_view()[node as int].children,
                locale@,
                registry.names(),
                outs,
                Seq::empty(),
                state_of(old(numbers)@, old(selectors)@, calls),
            ) {
                Ok((named, st1)) => result.0 matches Ok(r) && named_view(r.0@) == named && strings_view(r.1@) == pattern_names(named) && st1 == state_of(final(numbers)@, final(selectors)@, result.1@),
                Err(e) => result.0 matches Err(err) && err@ == e,
            },
{
    let ghost tokens = tree.token_view();
    let ghost nodes = tree.node_view();
    let ghost st0 = state_of(numbers@, selectors@, calls);
    let ch = tree.children(node);
    let ghost children = ch@;
    let mut named: Vec<(String, Vec<PatternPart>)> = Vec::new();
    let mut names: Vec<String> = Vec::new();
    let mut k: usize = 0;
    let ghost mut now = calls;
    assert(children.skip(0) =~= children);
    assert(named_view(named@) =~= Seq::<(Seq<char>, Seq<PartView>)>::empty());
    assert(strings_view(names@) =~= pattern_names(named_view(named@)));
    while k < ch.len()
        invariant
            tree.wf(),
            node < nodes.len(),
            tokens == tree.token_view(),
            nodes == tree.node_view(),
            children == ch@,
            children == nodes[node as int].children,
            0 <= k <= children.len(),
            extends(now, calls),
            st0 == state_of(old(numbers)@, old(selectors)@, calls),
            strings_view(names@) == pattern_names(named_view(named@)),
            forall|outs: Seq<CommandCall>|
                #![trigger named_patterns(tokens, nodes, children.skip(k as int), locale@, registry.names(), outs, named_view(named@), state_of(numbers@, selectors@, now))]
                extends(outs, now) ==> named_patterns(tokens, nodes, children, locale@, registry.names(), outs, Seq::empty(), st0)
                    == named_patterns(tokens, nodes, children.skip(k as int), locale@, registry.names(), outs, named_view(named@), state_of(numbers@, selectors@, now)),
            calls_registered(calls, registry.names(), registry.commands()) ==> calls_registered(
                now,
                registry.names(),
                registry.commands(),
            ),
        decreases ch.len() - k,
    {
        assert(nodes[node as int].children[k as int] < nodes.len());
        assert(children.skip(k as int).drop_first() =~= children.skip(k + 1));
        assert(children.skip(k as int)[0] == children[k as int]);
        let ghost stk = state_of(numbers@, selectors@, now);
        let ghost nk = named_view(named@);
        let (p, Ghost(next)) = named_pattern_of(tree, ch[k], &names, locale, registry, numbers, selectors, Ghost(nk), Ghost(now));
        match p {
            Ok((id, parts)) => {
                let ghost pv = (id@, parts_view(parts@));
                let ghost names_before = strings_view(names@);
                names.push(id.clone());
                named.push((id, parts));
                assert(named_view(named@) =~= nk.push(pv));
                assert(strings_view(names@) =~= names_before.push(pv.0));
                assert(pattern_names(named_view(named@)) =~= pattern_names(nk).push(pv.0));
                proof {
                    let ghost stn = state_of(numbers@, selectors@, next);
                    assert forall|outs: Seq<CommandCall>| extends(outs, next) implies named_patterns(tokens, nodes, children, locale@, registry.names(), outs, Seq::empty(), st0)
                        == named_patterns(tokens, nodes, children.skip(k + 1), locale@, registry.names(), outs, named_view(named@), stn) by {
                        lemma_extends_trans(outs, next, now);
                        let a = named_patterns(tokens, nodes, children.skip(k as int), locale@, registry.names(), outs, nk, stk);
                        let c = named_pattern(tokens, nodes, children[k as int], nk, locale@, registry.names(), outs, stk);
                        assert(c matches Ok((pp, st1)) && pp == pv && st1 == stn);
                        assert(a == named_patterns(tokens, nodes, children.skip(k + 1), locale@, registry.names(), outs, nk.push(pv), stn));
                    }
                    lemma_extends_trans(next, now, calls);
                    now = next;
                }
            },
            Err(e) => {
                proof {
                    assert forall|outs: Seq<CommandCall>| extends(outs, next) implies named_patterns(tokens, nodes, children, locale@, registry.names(), outs, Seq::empty(), st0) matches Err(err) && err == e@ by {
                        lemma_extends_trans(outs, next, now);
                        let a = named_patterns(tokens, nodes, children.skip(k as int), locale@, registry.names(), outs, nk, stk);
                        let c = named_pattern(tokens, nodes, children[k as int], nk, locale@, registry.names(), outs, stk);
                        assert(c matches Err(err) && err == e@);
                        assert(a matches Err(err) && err == e@);
                    }
                    lemma_extends_trans(next, now, calls);
                }
                return (Err(e), Ghost(next));
            },
        }
        k = k + 1;
    }
    assert(children.skip(k as int) =~= Seq::<usize>::empty());
    proof {
        assert forall|outs: Seq<CommandCall>| extends(outs, now) implies named_patterns(tokens, nodes, children, locale@, registry.names(), outs, Seq::empty(), st0)
            == Ok::<(Seq<(Seq<char>, Seq<PartView>)>, AnalysisState), FormatterErrorView>((named_view(named@), state_of(numbers@, selectors@, now))) by {
            let a = named_patterns(tokens, nodes, children.skip(k as int), locale@, registry.names(), outs, named_view(named@), state_of(numbers@, selectors@, now));
        }
    }
    (Ok((named, names)), Ghost(now))
}

/// What the formatting of a pattern depends on: the locale, the patterns (the named substrings in order, then
/// the main string), the names of the named substrings and the selectors.
pub struct FormatterView {
    pub locale: Seq<char>,
    pub patterns: Seq<Seq<PartView>>,
    pub names: Seq<Seq<char>>,
    pub selectors: Seq<Seq<(Seq<char>, usize)>>,
}

/// An outcome that the formatter gets from a command delayed to formatting: the command, its strings and what
/// it returned.
pub enum Outside {
    Command(Seq<char>, Seq<Seq<char>>, Result<Seq<char>, CommandErrorView>),
}

/// The parameters that a command delayed to formatting gets for its strings: the command identifier, then
/// [`command_parameter`] of each other string.
pub open spec fn delayed_parameters(
    values: Seq<(String, crate::values::PlaceholderValue)>,
    strings: Seq<Seq<char>>,
) -> Seq<crate::values::ValueView> {
    Seq::new(
        strings.len(),
        |k: int|
            if k == 0 {
                crate::values::ValueView::String(strings[0])
            } else {
                command_parameter(values, strings[k])
            },
    )
}

/// The parameters that a command called by the analysis gets: its strings.
pub open spec fn static_parameters(strings: Seq<Seq<char>>) -> Seq<crate::values::ValueView> {
    strings.map_values(|s: Seq<char>| crate::values::ValueView::String(s))
}

/// The outcome is what the command registered first under the name gives for the parameters.
pub open spec fn registered_outcome<C: Command>(
    names: Seq<Seq<char>>,
    commands: Seq<C>,
    command: Seq<char>,
    parameters: Seq<crate::values::ValueView>,
    outcome: Result<Seq<char>, CommandErrorView>,
) -> bool {
    forall|i: int| is_first(names, command, i) ==> outcome == commands[i].outcome(parameters)
}

/// Every outcome of a delayed command is what the registered command gives for its parameters.
pub open spec fn outcomes_registered<C: Command>(
    outs: Seq<Outside>,
    values: Seq<(String, crate::values::PlaceholderValue)>,
    names: Seq<Seq<char>>,
    commands: Seq<C>,
) -> bool {
    forall|k: int|
        0 <= k < outs.len() ==> match #[trigger] outs[k] {
            Outside::Command(c, strings, r) => registered_outcome(names, commands, c, delayed_parameters(values, strings), r),
        }
}

/// Every call of a command by the analysis has the outcome that the registered command gives for its
/// parameters.
pub open spec fn calls_registered<C: Command>(calls: Seq<CommandCall>, names: Seq<Seq<char>>, commands: Seq<C>) -> bool {
    forall|k: int|
        0 <= k < calls.len() ==> registered_outcome(
            names,
            commands,
            (#[trigger] calls[k]).command,
            static_parameters(calls[k].parameters),
            calls[k].outcome,
        )
}

/// The result of formatting so far: the text, the number strings, and the number of outside outcomes used.
pub type Formatted = (Seq<char>, Seq<Seq<char>>, nat);

/// The name of pattern `p`: the named substring's identifier, or `_` for the main string.
pub open spec fn pattern_name(fv: FormatterView, p: nat) -> Seq<char> {
    if p < fv.names.len() {
        fv.names[p as int]
    } else {
        "_"@
    }
}

/// The string of a placeholder value that stands for a string.
pub open spec fn value_string(v: crate::values::PlaceholderValue) -> Option<Seq<char>> {
    match v {
        crate::values::PlaceholderValue::String(s) => Some(s@),
        crate::values::PlaceholderValue::TaggedString(t) => Some(t.text()),
        _ => None,
    }
}

/// An ICU4X text, or the error where it is `None`.
pub open spec fn icu_text(text: Option<Seq<char>>, error: FormatterErrorView) -> Result<Seq<char>, FormatterErrorView> {
    match text {
        Some(t) => Ok(t),
        None => Err(error),
    }
}

/// The text of a decimal placeholder value; a decimal number takes the outside outcome `outs[k]`.
pub open spec fn decimal_value_text(
    locale: Seq<char>,
    sign: Option<SignOption>,
    group: Option<GroupingStrategy>,
    v: crate::values::PlaceholderValue,
    outs: Seq<Outside>,
    k: nat,
) -> Result<(Seq<char>, nat), FormatterErrorView> {
    match v {
        crate::values::PlaceholderValue::Integer(n) => match crate::icu::with_locale(
            locale,
            icu_text(crate::icu::integer_text(locale, sign, group, n as int), FormatterErrorView::Decimal),
        ) {
            Ok(t) => Ok((t, k)),
            Err(e) => Err(e),
        },
        crate::values::PlaceholderValue::Unsigned(n) => match crate::icu::with_locale(
            locale,
            icu_text(crate::icu::integer_text(locale, sign, group, n as int), FormatterErrorView::Decimal),
        ) {
            Ok(t) => Ok((t, k)),
            Err(e) => Err(e),
        },
        crate::values::PlaceholderValue::FixedDecimal(d) => match crate::icu::with_locale(
            locale,
            icu_text(crate::icu::decimal_text(locale, sign, group, d), FormatterErrorView::Decimal),
        ) {
            Ok(t) => Ok((t, k)),
            Err(e) => Err(e),
        },
        _ => Err(FormatterErrorView::InvalidValue("PatternDecimal"@)),
    }
}

/// The text of a date and time placeholder value for the locale and lengths; an ISO 8601 string is a date and
/// time (`date` `T` `time`), a time (`T` `time`) or a date.
pub open spec fn date_time_value_text(
    locale: Seq<char>,
    date_length: DateLength,
    time_length: TimeLength,
    v: crate::values::PlaceholderValue,
) -> Result<Seq<char>, FormatterErrorView> {
    match v {
        crate::values::PlaceholderValue::DateTime(dt) => crate::icu::with_locale(locale, crate::icu::date_outcome(
            crate::icu::spec_date_ok(dt.date) && crate::icu::spec_time_ok(dt.time),
            crate::icu::spec_date_time_text(locale, date_length, time_length, dt),
        )),
        crate::values::PlaceholderValue::Date(d) => crate::icu::with_locale(locale, crate::icu::date_outcome(
            crate::icu::spec_date_ok(d),
            crate::icu::spec_date_text(locale, date_length, d),
        )),
        crate::values::PlaceholderValue::Time(t) => crate::icu::with_locale(locale, crate::icu::date_outcome(
            crate::icu::spec_time_ok(t),
            crate::icu::spec_time_text(locale, time_length, t),
        )),
        crate::values::PlaceholderValue::String(s) => {
            let parts = crate::iso::split_at_char(s@, 'T');
            if parts.len() == 2 && parts[0].len() == 0 {
                match crate::iso::spec_iso_time(parts[1]) {
                    Err(e) => Err(e),
                    Ok(t) => crate::icu::with_locale(locale, crate::icu::date_outcome(
                        crate::icu::spec_time_ok(t),
                        crate::icu::spec_time_text(locale, time_length, t),
                    )),
                }
            } else if parts.len() == 2 {
                match crate::iso::spec_iso_date(parts[0]) {
                    Err(e) => Err(e),
                    Ok(d) => match crate::iso::spec_iso_time(parts[1]) {
                        Err(e) => Err(e),
                        Ok(t) => {
                            let dt = crate::values::IsoDateTime { date: d, time: t };
                            crate::icu::with_locale(locale, crate::icu::date_outcome(
                                crate::icu::spec_date_ok(d) && crate::icu::spec_time_ok(t),
                                crate::icu::spec_date_time_text(locale, date_length, time_length, dt),
                            ))
                        },
                    },
                }
            } else {
                match crate::iso::spec_iso_date(parts[0]) {
                    Err(e) => Err(e),
                    Ok(d) => crate::icu::with_locale(locale, crate::icu::date_outcome(
                        crate::icu::spec_date_ok(d),
                        crate::icu::spec_date_text(locale, date_length, d),
                    )),
                }
            }
        },
        _ => Err(FormatterErrorView::InvalidValue("PatternDateTime"@)),
    }
}

/// The plural category name and the text of the number of a `plural` (cardinal) or `ordinal` placeholder
/// value; a decimal number takes the outside outcomes `outs[k]` (category) and `outs[k + 1]` (text). An
/// ordinal takes only an unsigned integer.
pub open spec fn plural_value(
    locale: Seq<char>,
    ordinal: bool,
    v: crate::values::PlaceholderValue,
    outs: Seq<Outside>,
    k: nat,
) -> Result<(Seq<char>, Seq<char>, nat), FormatterErrorView> {
    let invalid = if ordinal {
        FormatterErrorView::InvalidValue("PatternOrdinal"@)
    } else {
        FormatterErrorView::InvalidValue("PatternPlural"@)
    };
    let n: int = match v {
        crate::values::PlaceholderValue::Integer(n) => n as int,
        crate::values::PlaceholderValue::Unsigned(n) => n as int,
        _ => 0,
    };
    let integer = (v is Integer && !ordinal) || v is Unsigned;
    if integer {
        match crate::icu::with_locale(
            locale,
            crate::icu::icu_result(crate::icu::integer_plural(locale, ordinal, n), FormatterErrorView::PluralRules),
        ) {
            Err(e) => Err(e),
            Ok(c) => match crate::icu::with_locale(
                locale,
                icu_text(crate::icu::integer_text(locale, None, None, n), FormatterErrorView::Decimal),
            ) {
                Err(e) => Err(e),
                Ok(t) => Ok((crate::options::spec_plural_category(c), t, k)),
            },
        }
    } else if v is FixedDecimal && !ordinal {
        let d = v->FixedDecimal_0;
        match crate::icu::with_locale(
            locale,
            crate::icu::icu_result(crate::icu::decimal_plural(locale, ordinal, d), FormatterErrorView::PluralRules),
        ) {
            Err(e) => Err(e),
            Ok(c) => match crate::icu::with_locale(
                locale,
                icu_text(crate::icu::decimal_text(locale, None, None, d), FormatterErrorView::Decimal),
            ) {
                Err(e) => Err(e),
                Ok(t) => Ok((crate::options::spec_plural_category(c), t, k)),
            },
        }
    } else {
        Err(invalid)
    }
}

/// The number strings with every number sign of the parts set to `text`.
pub open spec fn set_numbers(parts: Seq<PartView>, numbers: Seq<Seq<char>>, text: Seq<char>) -> Result<
    Seq<Seq<char>>,
    FormatterErrorView,
>
    decreases parts.len(),
{
    if parts.len() == 0 {
        Ok(numbers)
    } else {
        match parts[0] {
            PartView::NumberSign(i) => if i < numbers.len() {
                set_numbers(parts.drop_first(), numbers.update(i as int, text), text)
            } else {
                Err(FormatterErrorView::NumberSignString(i))
            },
            _ => set_numbers(parts.drop_first(), numbers, text),
        }
    }
}

/// Formats pattern `p`.
pub open spec fn format_pattern(
    fv: FormatterView,
    values: Seq<(String, crate::values::PlaceholderValue)>,
    registry: Seq<Seq<char>>,
    outs: Seq<Outside>,
    p: nat,
    numbers: Seq<Seq<char>>,
    k: nat,
) -> Result<Formatted, FormatterErrorView>
    decreases p, 2nat, 0nat,
{
    if p >= fv.patterns.len() {
        Err(FormatterErrorView::PatternNamed(pattern_name(fv, p)))
    } else {
        format_parts(fv, values, registry, outs, p, fv.patterns[p as int], Seq::empty(), numbers, k)
    }
}

/// Formats the parts of pattern `p`, appending their texts to `acc`.
pub open spec fn format_parts(
    fv: FormatterView,
    values: Seq<(String, crate::values::PlaceholderValue)>,
    registry: Seq<Seq<char>>,
    outs: Seq<Outside>,
    p: nat,
    parts: Seq<PartView>,
    acc: Seq<char>,
    numbers: Seq<Seq<char>>,
    k: nat,
) -> Result<Formatted, FormatterErrorView>
    decreases p, 1nat, parts.len(),
{
    if parts.len() == 0 {
        Ok((acc, numbers, k))
    } else {
        match format_part(fv, values, registry, outs, p, parts[0], numbers, k) {
            Err(e) => Err(e),
            Ok((t, n1, k1)) => format_parts(fv, values, registry, outs, p, parts.drop_first(), acc + t, n1, k1),
        }
    }
}

/// Formats the named substring that selector `selector` of selectors `index` selects, in pattern `p`; with a
/// number text, its number signs are set to it first.
pub open spec fn format_selected(
    fv: FormatterView,
    values: Seq<(String, crate::values::PlaceholderValue)>,
    registry: Seq<Seq<char>>,
    outs: Seq<Outside>,
    p: nat,
    index: usize,
    selector: Seq<char>,
    number: Option<Seq<char>>,
    numbers: Seq<Seq<char>>,
    k: nat,
) -> Result<Formatted, FormatterErrorView>
    decreases p, 0nat, 0nat,
{
    if index >= fv.selectors.len() {
        Err(FormatterErrorView::SelectorsIndex(index))
    } else {
        match key_index(fv.selectors[index as int], selector) {
            None => Err(FormatterErrorView::SelectorsIndexNamed(selector, index)),
            Some(j) => {
                let q = fv.selectors[index as int][j].1 as nat;
                if q >= p || q >= fv.patterns.len() {
                    Err(FormatterErrorView::PatternNamed(pattern_name(fv, q)))
                } else {
                    let set = match number {
                        Some(t) => set_numbers(fv.patterns[q as int], numbers, t),
                        None => Ok(numbers),
                    };
                    match set {
                        Err(e) => Err(e),
                        Ok(n1) => format_pattern(fv, values, registry, outs, q, n1, k),
                    }
                }
            },
        }
    }
}

/// Formats a part of pattern `p`: its text, the number strings after, and the outside outcomes used.
pub open spec fn format_part(
    fv: FormatterView,
    values: Seq<(String, crate::values::PlaceholderValue)>,
    registry: Seq<Seq<char>>,
    outs: Seq<Outside>,
    p: nat,
    part: PartView,
    numbers: Seq<Seq<char>>,
    k: nat,
) -> Result<Formatted, FormatterErrorView>
    decreases p, 0nat, 1nat,
{
    match part {
        PartView::Text(t) => Ok((t, numbers, k)),
        PartView::PatternString(ph) => match crate::values::lookup(values, ph) {
            None => Err(FormatterErrorView::PlaceholderValue("PatternString"@, ph)),
            Some(v) => match value_string(v) {
                Some(t) => Ok((t, numbers, k)),
                None => Err(FormatterErrorView::InvalidValue("PatternString"@)),
            },
        },
        PartView::PatternDecimal(ph, sign, group) => match crate::values::lookup(values, ph) {
            None => Err(FormatterErrorView::PlaceholderValue("PatternDecimal"@, ph)),
            Some(v) => match decimal_value_text(fv.locale, sign, group, v, outs, k) {
                Err(e) => Err(e),
                Ok((t, k1)) => Ok((t, numbers, k1)),
            },
        },
        PartView::PatternDateTime(ph, date, time, calendar) => match crate::values::lookup(values, ph) {
            None => Err(FormatterErrorView::PlaceholderValue("PatternDateTime"@, ph)),
            Some(v) => {
                let locale = match calendar {
                    Some(c) => c,
                    None => fv.locale,
                };
                let date_length = match date {
                    Some(d) => d,
                    None => DateLength::Medium,
                };
                let time_length = match time {
                    Some(t) => t,
                    None => TimeLength::Medium,
                };
                match date_time_value_text(locale, date_length, time_length, v) {
                    Err(e) => Err(e),
                    Ok(t) => Ok((t, numbers, k)),
                }
            },
        },
        PartView::PatternComplex(ph, complex, index) => match crate::values::lookup(values, ph) {
            None => Err(FormatterErrorView::PlaceholderValue("PatternComplex"@, ph)),
            Some(v) => if complex == ComplexType::Select {
                match value_string(v) {
                    None => Err(FormatterErrorView::InvalidValue("PatternSelect"@)),
                    Some(s) => format_selected(fv, values, registry, outs, p, index, s, None, numbers, k),
                }
            } else {
                match plural_value(fv.locale, complex == ComplexType::Ordinal, v, outs, k) {
                    Err(e) => Err(e),
                    Ok((category, text, k1)) => format_selected(
                        fv,
                        values,
                        registry,
                        outs,
                        p,
                        index,
                        category,
                        Some(text),
                        numbers,
                        k1,
                    ),
                }
            },
        },
        PartView::NumberSign(i) => if i < numbers.len() {
            Ok((numbers[i as int], numbers, k))
        } else {
            Err(FormatterErrorView::NumberSignString(i))
        },
        PartView::Command(strings) => {
            let command = strings[0];
            if strings.len() == 0 {
                Err(FormatterErrorView::NeverReached)
            } else if !registry.contains(command) {
                Err(FormatterErrorView::Command(CommandErrorView::NotFound(command)))
            } else if k < outs.len() && (outs[k as int] matches Outside::Command(c, params, _) && c == command
                && params == strings) {
                match outs[k as int] {
                    Outside::Command(_, _, Ok(t)) => Ok((t, numbers, k + 1)),
                    Outside::Command(_, _, Err(e)) => Err(FormatterErrorView::Command(e)),
                }
            } else {
                Err(FormatterErrorView::Unanswered)
            }
        },
    }
}

/// The compiled patterns of a formatter: the locale, the patterns (the named substrings in order, then the
/// main string), the names of the named substrings, and the selectors.
struct Compiled {
    locale: String,
    patterns: Vec<Vec<PatternPart>>,
    names: Vec<String>,
    selectors: Vec<Vec<(String, usize)>>,
}

impl View for Compiled {
    type V = FormatterView;

    closed spec fn view(&self) -> FormatterView {
        FormatterView {
            locale: self.locale@,
            patterns: self.patterns@.map_values(|v: Vec<PatternPart>| parts_view(v@)),
            names: strings_view(self.names@),
            selectors: selectors_view(self.selectors@),
        }
    }
}

/// The text of a decimal placeholder value, as [`decimal_value_text`].
fn decimal_value_of(
    locale: &String,
    sign: Option<SignOption>,
    group: Option<GroupingStrategy>,
    value: &crate::values::PlaceholderValue,
    Ghost(outs0): Ghost<Seq<Outside>>,
) -> (result: (Result<String, FormatterError>, Ghost<Seq<Outside>>))
    ensures
        extends(result.1@, outs0),
        forall|outs: Seq<Outside>|
            #![trigger decimal_value_text(locale@, sign, group, *value, outs, outs0.len())]
            extends(outs, result.1@) ==> match decimal_value_text(locale@, sign, group, *value, outs, outs0.len()) {
                Ok((t, k1)) => result.0 matches Ok(r) && r@ == t && k1 == result.1@.len(),
                Err(e) => result.0 matches Err(err) && err@ == e,
            },
        result.1@ == outs0,
{
    match value {
        crate::values::PlaceholderValue::Integer(n) => (crate::icu::format_integer(locale.as_str(), sign, group, *n), Ghost(outs0)),
        crate::values::PlaceholderValue::Unsigned(n) => (crate::icu::format_unsigned(locale.as_str(), sign, group, *n), Ghost(outs0)),
        crate::values::PlaceholderValue::FixedDecimal(d) => (crate::icu::format_decimal(locale.as_str(), sign, group, *d), Ghost(outs0)),
        _ => (Err(FormatterError::InvalidValue("PatternDecimal".to_owned())), Ghost(outs0)),
    }
}

/// The text of a date and time placeholder value, as [`date_time_value_text`].
fn date_time_value_of(
    locale: &String,
    date_length: DateLength,
    time_length: TimeLength,
    value: &crate::values::PlaceholderValue,
) -> (result: Result<String, FormatterError>)
    ensures
        crate::icu::outcome_agrees(result, date_time_value_text(locale@, date_length, time_length, *value)),
{
    match value {
        crate::values::PlaceholderValue::DateTime(dt) => crate::icu::format_date_time(locale.as_str(), date_length, time_length, *dt),
        crate::values::PlaceholderValue::Date(d) => crate::icu::format_date(locale.as_str(), date_length, *d),
        crate::values::PlaceholderValue::Time(t) => crate::icu::format_time(locale.as_str(), time_length, *t),
        crate::values::PlaceholderValue::String(s) => {
            let chars = crate::options::chars_of(s.as_str());
            let parts = crate::iso::split_chars(&chars, 'T');
            if parts.len() == 2 && parts[0].len() == 0 {
                let time = crate::iso::decompose_iso_time(crate::iso::string_of(&parts[1]).as_str())?;
                crate::icu::format_time(locale.as_str(), time_length, time)
            } else if parts.len() == 2 {
                let date = crate::iso::decompose_iso_date(crate::iso::string_of(&parts[0]).as_str())?;
                let time = crate::iso::decompose_iso_time(crate::iso::string_of(&parts[1]).as_str())?;
                crate::icu::format_date_time(locale.as_str(), date_length, time_length, crate::values::IsoDateTime { date, time })
            } else {
                proof {
                    crate::iso::lemma_split_nonempty(s@, 'T');
                }
                let date = crate::iso::decompose_iso_date(crate::iso::string_of(&parts[0]).as_str())?;
                crate::icu::format_date(locale.as_str(), date_length, date)
            }
        },
        _ => Err(FormatterError::InvalidValue("PatternDateTime".to_owned())),
    }
}

/// The plural category name and the number text of a `plural` or `ordinal` placeholder value, as
/// [`plural_value`].
fn plural_value_of(
    locale: &String,
    ordinal: bool,
    value: &crate::values::PlaceholderValue,
    Ghost(outs0): Ghost<Seq<Outside>>,
) -> (result: (Result<(&'static str, String), FormatterError>, Ghost<Seq<Outside>>))
    ensures
        extends(result.1@, outs0),
        forall|outs: Seq<Outside>|
            #![trigger plural_value(locale@, ordinal, *value, outs, outs0.len())]
            extends(outs, result.1@) ==> match plural_value(locale@, ordinal, *value, outs, outs0.len()) {
                Ok((c, t, k1)) => result.0 matches Ok(r) && r.0@ == c && r.1@ == t && k1 == result.1@.len(),
                Err(e) => result.0 matches Err(err) && err@ == e,
            },
        result.1@ == outs0,
{
    match value {
        crate::values::PlaceholderValue::Integer(n) if !ordinal => {
            let category = match crate::icu::plural_of_integer(locale.as_str(), ordinal, *n) {
                Ok(c) => c,
                Err(e) => return (Err(e), Ghost(outs0)),
            };
            match crate::icu::format_integer(locale.as_str(), None, None, *n) {
                Ok(t) => (Ok((crate::options::plural_category(category), t)), Ghost(outs0)),
                Err(e) => (Err(e), Ghost(outs0)),
            }
        },
        crate::values::PlaceholderValue::Unsigned(n) => {
            let category = match crate::icu::plural_of_unsigned(locale.as_str(), ordinal, *n) {
                Ok(c) => c,
                Err(e) => return (Err(e), Ghost(outs0)),
            };
            match crate::icu::format_unsigned(locale.as_str(), None, None, *n) {
                Ok(t) => (Ok((crate::options::plural_category(category), t)), Ghost(outs0)),
                Err(e) => (Err(e), Ghost(outs0)),
            }
        },
        crate::values::PlaceholderValue::FixedDecimal(d) if !ordinal => {
            let category = match crate::icu::plural_of_decimal(locale.as_str(), ordinal, *d) {
                Ok(c) => c,
                Err(e) => return (Err(e), Ghost(outs0)),
            };
            match crate::icu::format_decimal(locale.as_str(), None, None, *d) {
                Ok(t) => (Ok((crate::options::plural_category(category), t)), Ghost(outs0)),
                Err(e) => (Err(e), Ghost(outs0)),
            }
        },
        _ => if ordinal {
            (Err(FormatterError::InvalidValue("PatternOrdinal".to_owned())), Ghost(outs0))
        } else {
            (Err(FormatterError::InvalidValue("PatternPlural".to_owned())), Ghost(outs0))
        },
    }
}

/// Sets the number strings of the number signs of the parts to the text, as [`set_numbers`].
fn set_numbers_of(parts: &Vec<PatternPart>, numbers: &mut Vec<String>, text: &String) -> (result: Result<(), FormatterError>)
    ensures
        match set_numbers(parts_view(parts@), strings_view(old(numbers)@), text@) {
            Ok(n) => result is Ok && strings_view(final(numbers)@) == n,
            Err(e) => result matches Err(err) && err@ == e,
        },
{
    let ghost pv = parts_view(parts@);
    let mut k: usize = 0;
    assert(pv.skip(0) =~= pv);
    while k < parts.len()
        invariant
            pv == parts_view(parts@),
            pv.len() == parts@.len(),
            0 <= k <= parts@.len(),
            set_numbers(pv, strings_view(old(numbers)@), text@) == set_numbers(pv.skip(k as int), strings_view(numbers@), text@),
        decreases parts.len() - k,
    {
        assert(pv.skip(k as int).drop_first() =~= pv.skip(k + 1));
        assert(pv.skip(k as int)[0] == parts@[k as int]@);
        if let PatternPart::NumberSign(i) = &parts[k] {
            if *i >= numbers.len() {
                return Err(FormatterError::NumberSignString(*i));
            }
            let ghost before = strings_view(numbers@);
            numbers.set(*i, text.clone());
            assert(strings_view(numbers@) =~= before.update(*i as int, text@));
        }
        k = k + 1;
    }
    assert(pv.skip(k as int) =~= Seq::<PartView>::empty());
    Ok(())
}

/// The named substring that the selector selects, as [`key_index`] finds it.
fn selector_target(selectors: &Vec<(String, usize)>, selector: &str) -> (result: Option<usize>)
    ensures
        match key_index(resolved_view(selectors@), selector@) {
            Some(j) => result == Some(resolved_view(selectors@)[j].1),
            None => result is None,
        },
{
    let ghost v = resolved_view(selectors@);
    let mut i: usize = 0;
    while i < selectors.len()
        invariant
            0 <= i <= selectors@.len(),
            v == resolved_view(selectors@),
            v.len() == selectors@.len(),
            forall|k: int| 0 <= k < i ==> v[k].0 != selector@,
        decreases selectors.len() - i,
    {
        if crate::values::str_eq(selectors[i].0.as_str(), selector) {
            proof {
                lemma_key_index_none(v.take(i as int), selector@);
                assert(v.take(i + 1).drop_last() =~= v.take(i as int));
                lemma_key_index_extend(v, selector@, i + 1);
            }
            return Some(selectors[i].1);
        }
        i = i + 1;
    }
    proof {
        lemma_key_index_none(v, selector@);
    }
    None
}

/// The name of pattern `p`, as [`pattern_name`].
fn pattern_name_of(compiled: &Compiled, p: usize) -> (result: String)
    ensures
        result@ == pattern_name(compiled@, p as nat),
{
    if p < compiled.names.len() {
        compiled.names[p].clone()
    } else {
        "_".to_owned()
    }
}

/// Formats pattern `p`, as [`format_pattern`].
fn format_pattern_of<C: Command>(
    compiled: &Compiled,
    values: &Vec<(String, crate::values::PlaceholderValue)>,
    registry: &CommandRegistry<C>,
    p: usize,
    numbers: &mut Vec<String>,
    Ghost(outs0): Ghost<Seq<Outside>>,
) -> (result: (Result<String, FormatterError>, Ghost<Seq<Outside>>))
    ensures
        extends(result.1@, outs0),
        outcomes_registered(outs0, values@, registry.names(), registry.commands()) ==> outcomes_registered(
            result.1@,
            values@,
            registry.names(),
            registry.commands(),
        ),
        forall|outs: Seq<Outside>|
            #![trigger format_pattern(compiled@, values@, registry.names(), outs, p as nat, strings_view(old(numbers)@), outs0.len())]
            extends(outs, result.1@) ==> match format_pattern(compiled@, values@, registry.names(), outs, p as nat, strings_view(old(numbers)@), outs0.len()) {
                Ok((t, n1, k1)) => result.0 matches Ok(r) && r@ == t && strings_view(final(numbers)@) == n1 && k1 == result.1@.len(),
                Err(e) => result.0 matches Err(err) && err@ == e,
            },
    decreases p, 2nat, 0nat,
{
    let ghost fv = compiled@;
    let ghost vv = values@;
    let ghost reg = registry.names();
    let ghost n0 = strings_view(numbers@);
    if p >= compiled.patterns.len() {
        return (Err(FormatterError::PatternNamed(pattern_name_of(compiled, p))), Ghost(outs0));
    }
    let parts = &compiled.patterns[p];
    let ghost pv = parts_view(parts@);
    assert(fv.patterns[p as int] == pv);
    let mut text = String::new();
    let mut i: usize = 0;
    let ghost mut now = outs0;
    assert(pv.skip(0) =~= pv);
    while i < parts.len()
        invariant
            fv == compiled@,
            vv == values@,
            reg == registry.names(),
            p < fv.patterns.len(),
            pv == parts_view(parts@),
            pv.len() == parts@.len(),
            fv.patterns[p as int] == pv,
            0 <= i <= parts@.len(),
            extends(now, outs0),
            outcomes_registered(outs0, values@, registry.names(), registry.commands()) ==> outcomes_registered(
                now,
                values@,
                registry.names(),
                registry.commands(),
            ),
            n0 == strings_view(old(numbers)@),
            forall|outs: Seq<Outside>|
                #![trigger format_parts(fv, vv, reg, outs, p as nat, pv.skip(i as int), text@, strings_view(numbers@), now.len())]
                extends(outs, now) ==> format_pattern(fv, vv, reg, outs, p as nat, n0, outs0.len())
                    == format_parts(fv, vv, reg, outs, p as nat, pv.skip(i as int), text@, strings_view(numbers@), now.len()),
        decreases parts.len() - i,
    {
        assert(pv.skip(i as int).drop_first() =~= pv.skip(i + 1));
        assert(pv.skip(i as int)[0] == parts@[i as int]@);
        let ghost ni = strings_view(numbers@);
        let ghost ti = text@;
        let (r, Ghost(next)) = format_part_of(compiled, values, registry, p, &parts[i], numbers, Ghost(now));
        match r {
            Ok(t) => {
                text.append(t.as_str());
                proof {
                    let ghost nn = strings_view(numbers@);
                    assert forall|outs: Seq<Outside>| extends(outs, next) implies format_pattern(fv, vv, reg, outs, p as nat, n0, outs0.len())
                        == format_parts(fv, vv, reg, outs, p as nat, pv.skip(i + 1), text@, nn, next.len()) by {
                        lemma_extends_trans(outs, next, now);
                        let a = format_parts(fv, vv, reg, outs, p as nat, pv.skip(i as int), ti, ni, now.len());
                        let c = format_part(fv, vv, reg, outs, p as nat, parts@[i as int]@, ni, now.len());
                        assert(c matches Ok((tt, n1, k1)) && tt == t@ && n1 == nn && k1 == next.len());
                    }
                    lemma_extends_trans(next, now, outs0);
                    now = next;
                }
            },
            Err(e) => {
                proof {
                    assert forall|outs: Seq<Outside>| extends(outs, next) implies format_pattern(fv, vv, reg, outs, p as nat, n0, outs0.len()) matches Err(err) && err == e@ by {
                        lemma_extends_trans(outs, next, now);
                        let a = format_parts(fv, vv, reg, outs, p as nat, pv.skip(i as int), ti, ni, now.len());
                        let c = format_part(fv, vv, reg, outs, p as nat, parts@[i as int]@, ni, now.len());
                        assert(c matches Err(err) && err == e@);
                    }
                    lemma_extends_trans(next, now, outs0);
                }
                return (Err(e), Ghost(next));
            },
        }
        i = i + 1;
    }
    assert(pv.skip(i as int) =~= Seq::<PartView>::empty());
    proof {
        assert forall|outs: Seq<Outside>| extends(outs, now) implies format_pattern(fv, vv, reg, outs, p as nat, n0, outs0.len())
            == Ok::<Formatted, FormatterErrorView>((text@, strings_view(numbers@), now.len())) by {
            let a = format_parts(fv, vv, reg, outs, p as nat, pv.skip(i as int), text@, strings_view(numbers@), now.len());
        }
    }
    (Ok(text), Ghost(now))
}

/// The text of an optional string.
pub open spec fn option_text(text: Option<&String>) -> Option<Seq<char>> {
    match text {
        Some(t) => Some(t@),
        None => None,
    }
}

/// Formats the named substring selected by the selector, as [`format_selected`].
fn format_selected_of<C: Command>(
    compiled: &Compiled,
    values: &Vec<(String, crate::values::PlaceholderValue)>,
    registry: &CommandRegistry<C>,
    p: usize,
    index: usize,
    selector: &str,
    number: Option<&String>,
    numbers: &mut Vec<String>,
    Ghost(outs0): Ghost<Seq<Outside>>,
) -> (result: (Result<String, FormatterError>, Ghost<Seq<Outside>>))
    ensures
        extends(result.1@, outs0),
        outcomes_registered(outs0, values@, registry.names(), registry.commands()) ==> outcomes_registered(
            result.1@,
            values@,
            registry.names(),
            registry.commands(),
        ),
        forall|outs: Seq<Outside>|
            #![trigger format_selected(compiled@, values@, registry.names(), outs, p as nat, index, selector@, option_text(number), strings_view(old(numbers)@), outs0.len())]
            extends(outs, result.1@) ==> match format_selected(
                compiled@,
                values@,
                registry.names(),
                outs,
                p as nat,
                index,
                selector@,
                option_text(number),
                strings_view(old(numbers)@),
                outs0.len(),
            ) {
                Ok((t, n1, k1)) => result.0 matches Ok(r) && r@ == t && strings_view(final(numbers)@) == n1 && k1 == result.1@.len(),
                Err(e) => result.0 matches Err(err) && err@ == e,
            },
    decreases p, 0nat, 0nat,
{
    if index >= compiled.selectors.len() {
        return (Err(FormatterError::SelectorsIndex(index)), Ghost(outs0));
    }
    assert(compiled@.selectors[index as int] == resolved_view(compiled.selectors@[index as int]@));
    let q = match selector_target(&compiled.selectors[index], selector) {
        Some(q) => q,
        None => return (Err(FormatterError::SelectorsIndexNamed(selector.to_owned(), index)), Ghost(outs0)),
    };
    if q >= p || q >= compiled.patterns.len() {
        return (Err(FormatterError::PatternNamed(pattern_name_of(compiled, q))), Ghost(outs0));
    }
    assert(compiled@.patterns[q as int] == parts_view(compiled.patterns@[q as int]@));
    let ghost n0 = strings_view(numbers@);
    if let Some(t) = number {
        if let Err(e) = set_numbers_of(&compiled.patterns[q], numbers, t) {
            return (Err(e), Ghost(outs0));
        }
    }
    let ghost n1 = strings_view(numbers@);
    proof {
        assert forall|outs: Seq<Outside>|
            #[trigger] format_selected(compiled@, values@, registry.names(), outs, p as nat, index, selector@, option_text(number), n0, outs0.len())
                == format_pattern(compiled@, values@, registry.names(), outs, q as nat, n1, outs0.len()) by {}
    }
    format_pattern_of(compiled, values, registry, q, numbers, Ghost(outs0))
}

/// The parameter handed to a command for the string `s`: the value of the placeholder named `s` if there is
/// one, else the string itself.
pub open spec fn command_parameter(
    values: Seq<(String, crate::values::PlaceholderValue)>,
    s: Seq<char>,
) -> crate::values::ValueView {
    match crate::values::lookup(values, s) {
        Some(v) => crate::values::value_view(v),
        None => crate::values::ValueView::String(s),
    }
}

/// The parameters handed to a delayed command: the command identifier, then for each other string the value
/// of the placeholder of that name if there is one, else the string.
fn command_values(strings: &Vec<String>, values: &Vec<(String, crate::values::PlaceholderValue)>) -> (result: Vec<
    crate::values::PlaceholderValue,
>)
    requires
        strings@.len() > 0,
    ensures
        result@.len() == strings@.len(),
        crate::values::value_view(result@[0]) == crate::values::ValueView::String(strings@[0]@),
        forall|k: int|
            1 <= k < strings@.len() ==> crate::values::value_view(#[trigger] result@[k]) == command_parameter(
                values@,
                strings@[k]@,
            ),
{
    let mut parameters: Vec<crate::values::PlaceholderValue> = Vec::new();
    parameters.push(crate::values::PlaceholderValue::String(strings[0].clone()));
    let mut k: usize = 1;
    while k < strings.len()
        invariant
            1 <= k <= strings@.len(),
            parameters@.len() == k,
            crate::values::value_view(parameters@[0]) == crate::values::ValueView::String(strings@[0]@),
            forall|j: int|
                1 <= j < k ==> crate::values::value_view(#[trigger] parameters@[j]) == command_parameter(
                    values@,
                    strings@[j]@,
                ),
        decreases strings.len() - k,
    {
        match crate::values::get_value(values, strings[k].as_str()) {
            Some(v) => parameters.push(crate::values::clone_value(v)),
            None => parameters.push(crate::values::PlaceholderValue::String(strings[k].clone())),
        }
        k = k + 1;
    }
    parameters
}

/// Formats a part of pattern `p`, as [`format_part`].
fn format_part_of<C: Command>(
    compiled: &Compiled,
    values: &Vec<(String, crate::values::PlaceholderValue)>,
    registry: &CommandRegistry<C>,
    p: usize,
    part: &PatternPart,
    numbers: &mut Vec<String>,
    Ghost(outs0): Ghost<Seq<Outside>>,
) -> (result: (Result<String, FormatterError>, Ghost<Seq<Outside>>))
    ensures
        extends(result.1@, outs0),
        outcomes_registered(outs0, values@, registry.names(), registry.commands()) ==> outcomes_registered(
            result.1@,
            values@,
            registry.names(),
            registry.commands(),
        ),
        forall|outs: Seq<Outside>|
            #![trigger format_part(compiled@, values@, registry.names(), outs, p as nat, part@, strings_view(old(numbers)@), outs0.len())]
            extends(outs, result.1@) ==> match format_part(compiled@, values@, registry.names(), outs, p as nat, part@, strings_view(old(numbers)@), outs0.len()) {
                Ok((t, n1, k1)) => result.0 matches Ok(r) && r@ == t && strings_view(final(numbers)@) == n1 && k1 == result.1@.len(),
                Err(e) => result.0 matches Err(err) && err@ == e,
            },
    decreases p, 0nat, 1nat,
{
    proof {
        reveal_strlit("PatternString");
    }
    match part {
        PatternPart::Text(t) => {
            return (Ok(t.clone()), Ghost(outs0));
        },
        PatternPart::PatternString(ph) => match crate::values::get_value(values, ph.as_str()) {
            None => return (Err(FormatterError::PlaceholderValue("PatternString".to_owned(), ph.clone())), Ghost(outs0)),
            Some(v) => match v {
                crate::values::PlaceholderValue::String(s) => return (Ok(s.clone()), Ghost(outs0)),
                crate::values::PlaceholderValue::TaggedString(t) => return (Ok(t.as_string().clone()), Ghost(outs0)),
                _ => return (Err(FormatterError::InvalidValue("PatternString".to_owned())), Ghost(outs0)),
            },
        },
        PatternPart::PatternDecimal { placeholder, sign, group } => match crate::values::get_value(values, placeholder.as_str()) {
            None => return (Err(FormatterError::PlaceholderValue("PatternDecimal".to_owned(), placeholder.clone())), Ghost(outs0)),
            Some(v) => return decimal_value_of(&compiled.locale, *sign, *group, v, Ghost(outs0)),
        },
        PatternPart::PatternDateTime { placeholder, length_date, length_time, calendar } => match crate::values::get_value(
            values,
            placeholder.as_str(),
        ) {
            None => return (Err(FormatterError::PlaceholderValue("PatternDateTime".to_owned(), placeholder.clone())), Ghost(outs0)),
            Some(v) => {
                let locale = match calendar {
                    Some(c) => c,
                    None => &compiled.locale,
                };
                let date_length = match length_date {
                    Some(d) => *d,
                    None => DateLength::Medium,
                };
                let time_length = match length_time {
                    Some(t) => *t,
                    None => TimeLength::Medium,
                };
                return (date_time_value_of(locale, date_length, time_length, v), Ghost(outs0));
            },
        },
        PatternPart::PatternComplex { placeholder, complex, selectors } => match crate::values::get_value(
            values,
            placeholder.as_str(),
        ) {
            None => return (Err(FormatterError::PlaceholderValue("PatternComplex".to_owned(), placeholder.clone())), Ghost(outs0)),
            Some(v) => if *complex == ComplexType::Select {
                let s = match v {
                    crate::values::PlaceholderValue::String(s) => s,
                    crate::values::PlaceholderValue::TaggedString(t) => t.as_string(),
                    _ => return (Err(FormatterError::InvalidValue("PatternSelect".to_owned())), Ghost(outs0)),
                };
                proof {
                    let n0 = strings_view(numbers@);
                    assert forall|outs: Seq<Outside>|
                        #[trigger] format_part(compiled@, values@, registry.names(), outs, p as nat, part@, n0, outs0.len())
                            == format_selected(compiled@, values@, registry.names(), outs, p as nat, *selectors, s@, option_text(None), n0, outs0.len()) by {}
                }
                return format_selected_of(compiled, values, registry, p, *selectors, s.as_str(), None, numbers, Ghost(outs0));
            } else {
                let (r, Ghost(next)) = plural_value_of(&compiled.locale, *complex == ComplexType::Ordinal, v, Ghost(outs0));
                match r {
                    Err(e) => return (Err(e), Ghost(next)),
                    Ok((category, text)) => {
                        proof {
                            let n0 = strings_view(numbers@);
                            assert forall|outs: Seq<Outside>| extends(outs, next) implies
                                #[trigger] format_part(compiled@, values@, registry.names(), outs, p as nat, part@, n0, outs0.len())
                                    == format_selected(compiled@, values@, registry.names(), outs, p as nat, *selectors, category@, option_text(Some(&text)), n0, next.len()) by {
                                let x = plural_value(compiled@.locale, *complex == ComplexType::Ordinal, *v, outs, outs0.len());
                            }
                        }
                        let (r2, Ghost(last)) = format_selected_of(compiled, values, registry, p, *selectors, category, Some(&text), numbers, Ghost(next));
                        proof {
                            lemma_extends_trans(last, next, outs0);
                            assert forall|outs: Seq<Outside>| extends(outs, last) implies extends(outs, next) by {
                                lemma_extends_trans(outs, last, next);
                            }
                        }
                        return (r2, Ghost(last));
                    },
                }
            },
        },
        PatternPart::NumberSign(i) => if *i < numbers.len() {
            return (Ok(numbers[*i].clone()), Ghost(outs0));
        } else {
            return (Err(FormatterError::NumberSignString(*i)), Ghost(outs0));
        },
        PatternPart::Command { strings } => {
            if strings.len() == 0 {
                return (Err(FormatterError::NeverReached), Ghost(outs0));
            }
            let command = &strings[0];
            if !registry.contains(command.as_str()) {
                return (Err(FormatterError::Command(CommandError::NotFound(command.clone()))), Ghost(outs0));
            }
            let parameters = command_values(strings, values);
            let ghost parameters_view = parameters@;
            let outcome = registry.run(command.as_str(), parameters);
            let ghost o = Outside::Command(
                command@,
                strings_view(strings@),
                match &outcome {
                    Ok(t) => Ok(t@),
                    Err(e) => Err(e@),
                },
            );
            proof {
                let names = registry.names();
                let commands = registry.commands();
                assert(parameter_views(parameters_view) =~= delayed_parameters(values@, strings_view(strings@)));
                assert(registered_outcome(names, commands, command@, delayed_parameters(values@, strings_view(strings@)), o->Command_2));
                if outcomes_registered(outs0, values@, names, commands) {
                    assert forall|k: int| 0 <= k < outs0.push(o).len() implies match #[trigger] outs0.push(o)[k] {
                        Outside::Command(c, ss, r) => registered_outcome(names, commands, c, delayed_parameters(values@, ss), r),
                    } by {
                        if k < outs0.len() {
                            assert(outs0.push(o)[k] == outs0[k]);
                        }
                    }
                }
            }
            match outcome {
                Ok(t) => return (Ok(t), Ghost(outs0.push(o))),
                Err(e) => return (Err(FormatterError::Command(e)), Ghost(outs0.push(o))),
            }
        },
    }
}

/// The patterns of an analysis for the locale: the named substrings in order, then the main string.
pub open spec fn compiled_view(av: AnalysisView, locale: Seq<char>) -> FormatterView {
    FormatterView {
        locale,
        patterns: av.named.map_values(|p: (Seq<char>, Seq<PartView>)| p.1).push(av.main),
        names: pattern_names(av.named),
        selectors: av.selectors,
    }
}

/// `count` empty number strings.
pub open spec fn empty_numbers(count: nat) -> Seq<Seq<char>> {
    Seq::new(count, |i: int| Seq::<char>::empty())
}

/// `count` empty strings.
fn empty_strings(count: usize) -> (result: Vec<String>)
    ensures
        strings_view(result@) == empty_numbers(count as nat),
{
    let mut numbers: Vec<String> = Vec::new();
    let mut i: usize = 0;
    while i < count
        invariant
            0 <= i <= count,
            strings_view(numbers@) == empty_numbers(i as nat),
        decreases count - i,
    {
        let ghost before = strings_view(numbers@);
        numbers.push(String::new());
        assert(strings_view(numbers@) =~= before.push(Seq::<char>::empty()));
        assert(strings_view(numbers@) =~= empty_numbers(i as nat + 1));
        i = i + 1;
    }
    numbers
}

/// The semantic analysis of a tree, as [`analyse`]: the compiled patterns and the number of number signs.
fn analyse_of<C: Command>(tree: &Tree, locale: String, registry: &CommandRegistry<C>) -> (result: (
    Result<(Compiled, usize), FormatterError>,
    Ghost<Seq<CommandCall>>,
))
    requires
        tree.wf(),
    ensures
        calls_registered(result.1@, registry.names(), registry.commands()),
        forall|outs: Seq<CommandCall>|
            #![trigger analyse(tree.token_view(), tree.node_view(), locale@, registry.names(), outs)]
            extends(outs, result.1@) ==> match analyse(tree.token_view(), tree.node_view(), locale@, registry.names(), outs) {
                Ok(av) => result.0 matches Ok(r) && r.0@ == compiled_view(av, locale@) && r.1 == av.numbers,
                Err(e) => result.0 matches Err(err) && err@ == e,
            },
{
    let ghost tokens = tree.token_view();
    let ghost nodes = tree.node_view();
    let ghost reg = registry.names();
    let ghost st0 = AnalysisState { numbers: 0, selectors: Seq::empty(), calls: 0 };
    let ghost calls0 = Seq::<CommandCall>::empty();
    if *tree.node_type(0) != NodeType::Root {
        return (Err(FormatterError::InvalidRoot), Ghost(calls0));
    }
    let root = tree.children(0);
    if root.len() == 0 {
        return (Err(FormatterError::FirstChild(NodeType::Root)), Ghost(calls0));
    }
    assert(nodes[0].children[0] < nodes.len());
    let mut numbers: Vec<String> = Vec::new();
    let mut selectors: Vec<Vec<(String, usize)>> = Vec::new();
    assert(selectors_view(selectors@) =~= Seq::<Seq<(Seq<char>, usize)>>::empty());
    assert(state_of(numbers@, selectors@, calls0) == st0);
    let (named, names, Ghost(calls1)) = if root.len() > 1 {
        assert(nodes[0].children[1] < nodes.len());
        let group = root[1];
        let gt = *tree.node_type(group);
        if !gt.allow_children() {
            return (Err(FormatterError::RetrieveChildren(gt)), Ghost(calls0));
        }
        let (r, Ghost(c1)) = named_patterns_of(tree, group, &locale, registry, &mut numbers, &mut selectors, Ghost(calls0));
        match r {
            Ok((named, names)) => (named, names, Ghost(c1)),
            Err(e) => {
                proof {
                    assert forall|outs: Seq<CommandCall>| extends(outs, c1) implies analyse(tokens, nodes, locale@, reg, outs) matches Err(err) && err == e@ by {
                        let x = named_patterns(tokens, nodes, nodes[root@[1] as int].children, locale@, reg, outs, Seq::empty(), st0);
                    }
                }
                return (Err(e), Ghost(c1));
            },
        }
    } else {
        let named: Vec<(String, Vec<PatternPart>)> = Vec::new();
        let names: Vec<String> = Vec::new();
        assert(named_view(named@) =~= Seq::<(Seq<char>, Seq<PartView>)>::empty());
        assert(strings_view(names@) =~= pattern_names(named_view(named@)));
        (named, names, Ghost(calls0))
    };
    let ghost st1 = state_of(numbers@, selectors@, calls1);
    let ghost nv = named_view(named@);
    let main_node = root[0];
    let mt = *tree.node_type(main_node);
    if !mt.allow_children() {
        proof {
            assert forall|outs: Seq<CommandCall>| extends(outs, calls1) implies analyse(tokens, nodes, locale@, reg, outs) matches Err(err) && err == FormatterErrorView::RetrieveChildren(mt) by {
                if root@.len() > 1 {
                    let x = named_patterns(tokens, nodes, nodes[root@[1] as int].children, locale@, reg, outs, Seq::empty(), st0);
                }
            }
        }
        return (Err(FormatterError::RetrieveChildren(mt)), Ghost(calls1));
    }
    let (main, Ghost(calls2)) = string_parts_of(tree, main_node, true, &names, &locale, registry, &mut numbers, &mut selectors, Ghost(calls1));
    let main = match main {
        Ok(main) => main,
        Err(e) => {
            proof {
                assert forall|outs: Seq<CommandCall>| extends(outs, calls2) implies analyse(tokens, nodes, locale@, reg, outs) matches Err(err) && err == e@ by {
                    lemma_extends_trans(outs, calls2, calls1);
                    if root@.len() > 1 {
                        let x = named_patterns(tokens, nodes, nodes[root@[1] as int].children, locale@, reg, outs, Seq::empty(), st0);
                    }
                    let y = string_parts(tokens, nodes, nodes[main_node as int].children, true, pattern_names(nv), locale@, reg, outs, Seq::empty(), st1);
                }
            }
            return (Err(e), Ghost(calls2));
        },
    };
    let ghost mv = parts_view(main@);
    let mut patterns: Vec<Vec<PatternPart>> = Vec::new();
    let mut named = named;
    let ghost named_all = named@;
    let ghost target = nv.map_values(|p: (Seq<char>, Seq<PartView>)| p.1);
    let mut moved: usize = 0;
    assert(named_all.len() == named.len());
    assert(named_all.skip(0) =~= named_all);
    while named.len() > 0
        invariant
            nv == named_view(named_all),
            target == nv.map_values(|p: (Seq<char>, Seq<PartView>)| p.1),
            0 <= moved <= named_all.len(),
            named_all.len() <= usize::MAX,
            named@ == named_all.skip(moved as int),
            patterns@.len() == moved,
            forall|i: int| 0 <= i < moved ==> parts_view(#[trigger] patterns@[i]@) == target[i],
        decreases named.len(),
    {
        let (_, parts) = named.remove(0);
        assert(named_all.skip(moved as int)[0] == named_all[moved as int]);
        assert(named_all.skip(moved as int).remove(0) =~= named_all.skip(moved + 1));
        patterns.push(parts);
        moved = moved + 1;
    }
    let ghost before = patterns@;
    patterns.push(main);
    let count = numbers.len();
    let compiled = Compiled { locale, patterns, names, selectors };
    proof {
        assert(compiled@.patterns =~= target.push(mv));
        assert forall|outs: Seq<CommandCall>| extends(outs, calls2) implies analyse(tokens, nodes, locale@, reg, outs)
            == Ok::<AnalysisView, FormatterErrorView>(AnalysisView { named: nv, main: mv, numbers: count as nat, selectors: selectors_view(compiled.selectors@) }) by {
            lemma_extends_trans(outs, calls2, calls1);
            if root@.len() > 1 {
                let x = named_patterns(tokens, nodes, nodes[root@[1] as int].children, locale@, reg, outs, Seq::empty(), st0);
            }
            let y = string_parts(tokens, nodes, nodes[main_node as int].children, true, pattern_names(nv), locale@, reg, outs, Seq::empty(), st1);
        }
    }
    (Ok((compiled, count)), Ghost(calls2))
}

/// What creating the formatter of the pattern string with the grammar syntax characters, for the language tag
/// and the registered command names, gives: the lexer's errors for an empty grammar or string; otherwise, for
/// the tokenisation of the string, the parser's outcome (`None` where it is stuck, its error where it fails),
/// then `NoGrammar` where no grammar syntax character occurs, `Locale` where the language tag is not a
/// language identifier, and otherwise the analysis of the tree, in which each command called gives what the
/// command registered under its name gives for its parameters.
pub open spec fn creation_agrees<C: Command>(
    string: Seq<char>,
    grammar: Seq<char>,
    language_tag: Seq<char>,
    names: Seq<Seq<char>>,
    commands: Seq<C>,
    result: Option<Result<Formatter, FormatterError>>,
) -> bool {
    &&& grammar.len() == 0 ==> (result matches Some(Err(e)) && e@ == FormatterErrorView::Tree(
        crate::tree::TreeErrorView::Lexer(crate::lexer::LexerError::NoGrammar),
    ))
    &&& grammar.len() > 0 && string.len() == 0 ==> (result matches Some(Err(e)) && e@ == FormatterErrorView::Tree(
        crate::tree::TreeErrorView::Lexer(crate::lexer::LexerError::EmptyString),
    ))
    &&& grammar.len() > 0 && string.len() > 0 ==> exists|tokens: Seq<Token>|
        is_tokenisation(string, grammar, tokens) && match parse_tokens(tokens) {
            RunView::Done(q) => result matches Some(r) && (!crate::tree::spec_has_grammar(tokens) ==> (r matches Err(e) && e@
                == FormatterErrorView::NoGrammar)) && (crate::tree::spec_has_grammar(tokens) ==> match spec_locale(language_tag) {
                None => r matches Err(e) && e@ == FormatterErrorView::Locale,
                Some(l) => exists|calls: Seq<CommandCall>|
                    calls_registered(calls, names, commands) && analysis_agrees(
                        r,
                        analyse(tokens, q.nodes, l, names, calls),
                        l,
                        language_tag,
                    ),
            }),
            RunView::Fail(e) => result matches Some(Err(err)) && err@ == FormatterErrorView::Tree(e),
            RunView::Stuck => result is None,
        }
}

/// What formatting the main string of the patterns gives, from the number strings `numbers`, with the
/// placeholder values and the registered commands: the text and the language tag with the number strings
/// `after`, or the error. The text of each command delayed to formatting is what the command registered under
/// its name gives for its parameters.
pub open spec fn formatting_registered<C: Command>(
    patterns: FormatterView,
    numbers: Seq<Seq<char>>,
    language_tag: Seq<char>,
    values: Seq<(String, crate::values::PlaceholderValue)>,
    names: Seq<Seq<char>>,
    commands: Seq<C>,
    result: Result<(String, Rc<String>), FormatterError>,
    after: Seq<Seq<char>>,
) -> bool {
    exists|outs: Seq<Outside>|
        #![trigger format_pattern(patterns, values, names, outs, main_pattern(patterns), numbers, 0)]
        outcomes_registered(outs, values, names, commands) && match format_pattern(
            patterns,
            values,
            names,
            outs,
            main_pattern(patterns),
            numbers,
            0,
        ) {
            Ok((t, n1, _)) => result matches Ok(r) && r.0@ == t && r.1@ == language_tag && after == n1,
            Err(e) => result matches Err(err) && err@ == e,
        }
}

/// The outcome of a formatting specification is not `Unanswered`.
pub open spec fn answered(r: Result<Formatted, FormatterErrorView>) -> bool {
    r != Err::<Formatted, FormatterErrorView>(FormatterErrorView::Unanswered)
}

/// Two formatting outcomes, from the outside outcome positions `k1` and `k2`, are the same: the same error, or
/// the same text and number strings with as many outside outcomes used.
pub open spec fn same_formatted(r1: Result<Formatted, FormatterErrorView>, r2: Result<Formatted, FormatterErrorView>, k1: nat, k2: nat) -> bool {
    match (r1, r2) {
        (Ok((t1, n1, j1)), Ok((t2, n2, j2))) => t1 == t2 && n1 == n2 && j1 - k1 == j2 - k2,
        (Err(e1), Err(e2)) => e1 == e2,
        _ => false,
    }
}

/// A registered name has a first position.
proof fn lemma_first_exists(names: Seq<Seq<char>>, name: Seq<char>, j: int)
    requires
        0 <= j < names.len(),
        names[j] == name,
    ensures
        exists|i: int| is_first(names, name, i),
    decreases j,
{
    if exists|k: int| 0 <= k < j && names[k] == name {
        let k = choose|k: int| 0 <= k < j && names[k] == name;
        lemma_first_exists(names, name, k);
    } else {
        assert(is_first(names, name, j));
    }
}

proof fn lemma_same_pattern<C: Command>(
    fv: FormatterView,
    values: Seq<(String, crate::values::PlaceholderValue)>,
    names: Seq<Seq<char>>,
    commands: Seq<C>,
    outs1: Seq<Outside>,
    outs2: Seq<Outside>,
    p: nat,
    numbers: Seq<Seq<char>>,
    k1: nat,
    k2: nat,
)
    requires
        outcomes_registered(outs1, values, names, commands),
        outcomes_registered(outs2, values, names, commands),
        answered(format_pattern(fv, values, names, outs1, p, numbers, k1)),
        answered(format_pattern(fv, values, names, outs2, p, numbers, k2)),
    ensures
        same_formatted(format_pattern(fv, values, names, outs1, p, numbers, k1), format_pattern(fv, values, names, outs2, p, numbers, k2), k1, k2),
    decreases p, 2nat, 0nat,
{
    if p < fv.patterns.len() {
        lemma_same_parts(fv, values, names, commands, outs1, outs2, p, fv.patterns[p as int], Seq::empty(), numbers, k1, k2);
    }
}

proof fn lemma_same_parts<C: Command>(
    fv: FormatterView,
    values: Seq<(String, crate::values::PlaceholderValue)>,
    names: Seq<Seq<char>>,
    commands: Seq<C>,
    outs1: Seq<Outside>,
    outs2: Seq<Outside>,
    p: nat,
    parts: Seq<PartView>,
    acc: Seq<char>,
    numbers: Seq<Seq<char>>,
    k1: nat,
    k2: nat,
)
    requires
        outcomes_registered(outs1, values, names, commands),
        outcomes_registered(outs2, values, names, commands),
        answered(format_parts(fv, values, names, outs1, p, parts, acc, numbers, k1)),
        answered(format_parts(fv, values, names, outs2, p, parts, acc, numbers, k2)),
    ensures
        same_formatted(
            format_parts(fv, values, names, outs1, p, parts, acc, numbers, k1),
            format_parts(fv, values, names, outs2, p, parts, acc, numbers, k2),
            k1,
            k2,
        ),
    decreases p, 1nat, parts.len(),
{
    if parts.len() > 0 {
        let a = format_part(fv, values, names, outs1, p, parts[0], numbers, k1);
        let b = format_part(fv, values, names, outs2, p, parts[0], numbers, k2);
        lemma_same_part(fv, values, names, commands, outs1, outs2, p, parts[0], numbers, k1, k2);
        if let (Ok((t1, n1, j1)), Ok((t2, n2, j2))) = (a, b) {
            lemma_same_parts(fv, values, names, commands, outs1, outs2, p, parts.drop_first(), acc + t1, n1, j1, j2);
        }
    }
}

proof fn lemma_same_selected<C: Command>(
    fv: FormatterView,
    values: Seq<(String, crate::values::PlaceholderValue)>,
    names: Seq<Seq<char>>,
    commands: Seq<C>,
    outs1: Seq<Outside>,
    outs2: Seq<Outside>,
    p: nat,
    index: usize,
    selector: Seq<char>,
    number: Option<Seq<char>>,
    numbers: Seq<Seq<char>>,
    k1: nat,
    k2: nat,
)
    requires
        outcomes_registered(outs1, values, names, commands),
        outcomes_registered(outs2, values, names, commands),
        answered(format_selected(fv, values, names, outs1, p, index, selector, number, numbers, k1)),
        answered(format_selected(fv, values, names, outs2, p, index, selector, number, numbers, k2)),
    ensures
        same_formatted(
            format_selected(fv, values, names, outs1, p, index, selector, number, numbers, k1),
            format_selected(fv, values, names, outs2, p, index, selector, number, numbers, k2),
            k1,
            k2,
        ),
    decreases p, 0nat, 0nat,
{
    if index < fv.selectors.len() {
        if let Some(j) = key_index(fv.selectors[index as int], selector) {
            let q = fv.selectors[index as int][j].1 as nat;
            if q < p && q < fv.patterns.len() {
                let set = match number {
                    Some(t) => set_numbers(fv.patterns[q as int], numbers, t),
                    None => Ok(numbers),
                };
                if let Ok(n1) = set {
                    lemma_same_pattern(fv, values, names, commands, outs1, outs2, q, n1, k1, k2);
                }
            }
        }
    }
}

proof fn lemma_same_part<C: Command>(
    fv: FormatterView,
    values: Seq<(String, crate::values::PlaceholderValue)>,
    names: Seq<Seq<char>>,
    commands: Seq<C>,
    outs1: Seq<Outside>,
    outs2: Seq<Outside>,
    p: nat,
    part: PartView,
    numbers: Seq<Seq<char>>,
    k1: nat,
    k2: nat,
)
    requires
        outcomes_registered(outs1, values, names, commands),
        outcomes_registered(outs2, values, names, commands),
        answered(format_part(fv, values, names, outs1, p, part, numbers, k1)),
        answered(format_part(fv, values, names, outs2, p, part, numbers, k2)),
    ensures
        same_formatted(
            format_part(fv, values, names, outs1, p, part, numbers, k1),
            format_part(fv, values, names, outs2, p, part, numbers, k2),
            k1,
            k2,
        ),
    decreases p, 0nat, 1nat,
{
    match part {
        PartView::PatternComplex(ph, complex, index) => {
            if let Some(v) = crate::values::lookup(values, ph) {
                if complex == ComplexType::Select {
                    if let Some(s) = value_string(v) {
                        lemma_same_selected(fv, values, names, commands, outs1, outs2, p, index, s, None, numbers, k1, k2);
                    }
                } else {
                    let a = plural_value(fv.locale, complex == ComplexType::Ordinal, v, outs1, k1);
                    let b = plural_value(fv.locale, complex == ComplexType::Ordinal, v, outs2, k2);
                    if let (Ok((c1, t1, j1)), Ok((c2, t2, j2))) = (a, b) {
                        assert(c1 == c2 && t1 == t2 && j1 == k1 && j2 == k2);
                        lemma_same_selected(fv, values, names, commands, outs1, outs2, p, index, c1, Some(t1), numbers, k1, k2);
                    }
                }
            }
        },
        PartView::Command(strings) => {
            if strings.len() > 0 && names.contains(strings[0]) {
                let command = strings[0];
                let j = choose|j: int| 0 <= j < names.len() && names[j] == command;
                lemma_first_exists(names, command, j);
                let i = choose|i: int| is_first(names, command, i);
                if k1 < outs1.len() && k2 < outs2.len() {
                    let x = outs1[k1 as int];
                    let y = outs2[k2 as int];
                    assert(match x {
                        Outside::Command(c, ss, r) => registered_outcome(names, commands, c, delayed_parameters(values, ss), r),
                    });
                    assert(match y {
                        Outside::Command(c, ss, r) => registered_outcome(names, commands, c, delayed_parameters(values, ss), r),
                    });
                }
            }
        },
        _ => {},
    }
}

/// Formatting is determined by the formatter's patterns, number strings and language tag, the placeholder values
/// and the registered commands: two formatters that agree on these give the same text, or the same error, and
/// the same number strings after. An earlier `format` leaves a trace in a later one only through the number
/// strings that it set.
pub proof fn lemma_formatting_determined<C: Command>(
    patterns: FormatterView,
    numbers: Seq<Seq<char>>,
    language_tag: Seq<char>,
    values: Seq<(String, crate::values::PlaceholderValue)>,
    names: Seq<Seq<char>>,
    commands: Seq<C>,
    first: Result<(String, Rc<String>), FormatterError>,
    first_after: Seq<Seq<char>>,
    second: Result<(String, Rc<String>), FormatterError>,
    second_after: Seq<Seq<char>>,
)
    requires
        formatting_registered(patterns, numbers, language_tag, values, names, commands, first, first_after),
        formatting_registered(patterns, numbers, language_tag, values, names, commands, second, second_after),
    ensures
        first is Ok <==> second is Ok,
        first matches Ok(a) ==> (second matches Ok(b) && a.0@ == b.0@ && a.1@ == b.1@ && first_after == second_after),
        first matches Err(a) ==> (second matches Err(b) && a@ == b@),
{
    let main = main_pattern(patterns);
    let outs1 = choose|outs: Seq<Outside>|
        outcomes_registered(outs, values, names, commands) && match format_pattern(patterns, values, names, outs, main, numbers, 0) {
            Ok((t, n1, _)) => first matches Ok(r) && r.0@ == t && r.1@ == language_tag && first_after == n1,
            Err(e) => first matches Err(err) && err@ == e,
        };
    let outs2 = choose|outs: Seq<Outside>|
        outcomes_registered(outs, values, names, commands) && match format_pattern(patterns, values, names, outs, main, numbers, 0) {
            Ok((t, n1, _)) => second matches Ok(r) && r.0@ == t && r.1@ == language_tag && second_after == n1,
            Err(e) => second matches Err(err) && err@ == e,
        };
    let a = format_pattern(patterns, values, names, outs1, main, numbers, 0);
    let b = format_pattern(patterns, values, names, outs2, main, numbers, 0);
    if let Err(e) = first {
        assert(e@ != FormatterErrorView::Unanswered);
    }
    if let Err(e) = second {
        assert(e@ != FormatterErrorView::Unanswered);
    }
    lemma_same_pattern(patterns, values, names, commands, outs1, outs2, main, numbers, 0, 0);
}

/// The formatter of a pattern string: its language tag, its compiled patterns and the number strings of its
/// number signs.
pub struct Formatter {
    language_tag: Rc<String>,
    compiled: Compiled,
    numbers: Vec<String>,
}

/// The formatter agrees with the outcome of the analysis for the locale and language tag: the same patterns,
/// every number string empty; or the same error.
pub open spec fn analysis_agrees(
    result: Result<Formatter, FormatterError>,
    outcome: Result<AnalysisView, FormatterErrorView>,
    locale: Seq<char>,
    tag: Seq<char>,
) -> bool {
    match outcome {
        Ok(av) => result matches Ok(f) && f.tag() == tag && f.patterns() == compiled_view(av, locale)
            && f.number_strings() == empty_numbers(av.numbers),
        Err(e) => result matches Err(err) && err@ == e,
    }
}

/// The index of the main string among the patterns: the last.
pub open spec fn main_pattern(fv: FormatterView) -> nat {
    if fv.patterns.len() > 0 {
        (fv.patterns.len() - 1) as nat
    } else {
        0
    }
}

impl Formatter {
    /// The language tag of the formatter.
    pub closed spec fn tag(&self) -> Seq<char> {
        self.language_tag@
    }

    /// The compiled patterns of the formatter.
    pub closed spec fn patterns(&self) -> FormatterView {
        self.compiled@
    }

    /// The number strings of the number signs.
    pub closed spec fn number_strings(&self) -> Seq<Seq<char>> {
        strings_view(self.numbers@)
    }

    /// Creates the formatter of a tree by its semantic analysis, for the language tag and with the registered
    /// commands, as [`analyse`] states for the locale of the language tag.
    ///
    /// Fails with `NoGrammar` when the string has no grammar syntax character (it needs no formatting), and with
    /// `Locale` when the language tag is not a language identifier. The commands called during the analysis (not
    /// delayed by `#`) are called with the command identifier and its parameters, in order, and give what the
    /// registered commands give for them.
    pub fn from_tree<C: Command>(tree: &Tree, language_tag: &Rc<String>, registry: &CommandRegistry<C>) -> (result:
        Result<Formatter, FormatterError>)
        requires
            tree.wf(),
        ensures
            !tree.spec_has_grammar() ==> (result matches Err(e) && e@ == FormatterErrorView::NoGrammar),
            tree.spec_has_grammar() && spec_locale(language_tag@) is None ==> (result matches Err(e) && e@
                == FormatterErrorView::Locale),
            tree.spec_has_grammar() ==> (spec_locale(language_tag@) matches Some(l) ==> exists|calls: Seq<CommandCall>|
                calls_registered(calls, registry.names(), registry.commands()) && analysis_agrees(
                    result,
                    analyse(tree.token_view(), tree.node_view(), l, registry.names(), calls),
                    l,
                    language_tag@,
                )),
    {
        if !tree.has_grammar() {
            return Err(FormatterError::NoGrammar);
        }
        let locale = crate::icu::parse_locale(language_tag.as_str())?;
        let ghost l = locale@;
        let (analysis, Ghost(calls)) = analyse_of(tree, locale, registry);
        let ghost outcome = analyse(tree.token_view(), tree.node_view(), l, registry.names(), calls);
        assert(extends(calls, calls));
        let result = match analysis {
            Ok((compiled, count)) => {
                let numbers = empty_strings(count);
                Ok(Formatter { language_tag: Rc::clone(language_tag), compiled, numbers })
            },
            Err(e) => Err(e),
        };
        assert(analysis_agrees(result, outcome, l, language_tag@));
        result
    }

    /// Creates the formatter of a pattern string, tokenised with the grammar syntax characters `grammar`, for the
    /// language tag and with the registered commands: its tree, then its analysis as [`Formatter::from_tree`].
    ///
    /// Fails with `Tree` where the tree fails, and returns `None` where the parser is stuck.
    pub fn try_new<C: Command>(
        string: &str,
        grammar: &str,
        icu_data_provider: &Rc<IcuDataProvider>,
        registry: &CommandRegistry<C>,
        language_tag: &Rc<String>,
    ) -> (result: Option<Result<Formatter, FormatterError>>)
        ensures
            creation_agrees(string@, grammar@, language_tag@, registry.names(), registry.commands(), result),
    {
        match Tree::try_new(string, grammar, icu_data_provider) {
            None => None,
            Some(Err(e)) => Some(Err(FormatterError::Tree(e))),
            Some(Ok(tree)) => Some(Formatter::from_tree(&tree, language_tag, registry)),
        }
    }

    /// Formats the main string with the placeholder values and the registered commands, as [`format_pattern`]
    /// states for the main string; returns the text and the language tag. The number strings of the number signs
    /// are kept for the next call. The commands delayed by `#` give what the registered commands give for
    /// their parameters, as [`formatting_registered`] states.
    pub fn format<C: Command>(
        &mut self,
        values: &Vec<(String, crate::values::PlaceholderValue)>,
        registry: &CommandRegistry<C>,
    ) -> (result: Result<(String, Rc<String>), FormatterError>)
        ensures
            final(self).tag() == old(self).tag(),
            final(self).patterns() == old(self).patterns(),
            formatting_registered(
                old(self).patterns(),
                old(self).number_strings(),
                old(self).tag(),
                values@,
                registry.names(),
                registry.commands(),
                result,
                final(self).number_strings(),
            ),
    {
        let main = if self.compiled.patterns.len() > 0 {
            self.compiled.patterns.len() - 1
        } else {
            0
        };
        let ghost fv = self.compiled@;
        let ghost n0 = strings_view(self.numbers@);
        let (r, Ghost(outs)) = format_pattern_of(&self.compiled, values, registry, main, &mut self.numbers, Ghost(Seq::empty()));
        assert(outcomes_registered(Seq::<Outside>::empty(), values@, registry.names(), registry.commands()));
        assert(extends(outs, outs));
        assert(main as nat == main_pattern(fv));
        let ghost x = format_pattern(fv, values@, registry.names(), outs, main as nat, n0, 0);
        let ghost tag = self.language_tag@;
        let result = match r {
            Ok(text) => Ok((text, Rc::clone(&self.language_tag))),
            Err(e) => Err(e),
        };
        proof {
            assert(old(self).patterns() == fv);
            assert(old(self).number_strings() == n0);
            assert(old(self).tag() == tag);
            assert(main_pattern(old(self).patterns()) == main as nat);
            assert(self.number_strings() == strings_view(self.numbers@));
            assert(match format_pattern(old(self).patterns(), values@, registry.names(), outs, main_pattern(old(self).patterns()), old(self).number_strings(), 0) {
                Ok((t, n1, _)) => result matches Ok(rr) && rr.0@ == t && rr.1@ == old(self).tag() && self.number_strings() == n1,
                Err(e) => result matches Err(err) && err@ == e,
            });
            assert(outcomes_registered(outs, values@, registry.names(), registry.commands()));
            assert(formatting_registered(old(self).patterns(), old(self).number_strings(), old(self).tag(), values@,
                registry.names(), registry.commands(), result, self.number_strings()));
        }
        result
    }

    /// The language tag of the formatter.
    pub fn language_tag(&self) -> (result: &Rc<String>)
        ensures
            result@ == self.tag(),
    {
        &self.language_tag
    }
}

} // verus!
