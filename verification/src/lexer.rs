//! The lexer: splits a string into tokens of white space, identifiers, syntax and grammar characters.
//!
//! Characters are classified with the Unicode properties Pattern_White_Space and Pattern_Syntax (UAX #31), as
//! provided by ICU4X. A token is a maximal run of characters of the same class, except that every grammar syntax
//! character is a token of its own. Each token records its start position and length in bytes, characters and
//! grapheme clusters.

use crate::utf8::{
    char_byte_width, lemma_utf8_length_concat, lemma_utf8_length_encode, lemma_utf8_length_prefix,
    lemma_utf8_length_push, lemma_utf8_length_single, utf8_length,
};
use icu_properties::sets::CodePointSetData;
use icu_segmenter::GraphemeClusterSegmenter;
use std::rc::Rc;
use vstd::prelude::*;
use vstd::string::*;

verus! {

/// ICU4X grapheme cluster segmenter.
#[verifier::external_type_specification]
#[verifier::external_body]
pub struct ExGraphemeClusterSegmenter(GraphemeClusterSegmenter);

/// ICU4X code point set (a Unicode binary property).
#[verifier::external_type_specification]
#[verifier::external_body]
pub struct ExCodePointSetData(CodePointSetData);

/// Whether the character has the Unicode property Pattern_White_Space, in the compiled data of `icu_properties`.
pub uninterp spec fn spec_pattern_white_space(c: char) -> bool;

/// Whether the character has the Unicode property Pattern_Syntax, in the compiled data of `icu_properties`.
pub uninterp spec fn spec_pattern_syntax(c: char) -> bool;

/// The number of grapheme cluster boundaries (start and end included) that the compiled-data
/// `GraphemeClusterSegmenter` of `icu_segmenter` finds in the string.
pub uninterp spec fn spec_grapheme_boundaries(s: Seq<char>) -> nat;

/// Calls `icu_properties::sets::pattern_white_space().contains(c)`: the result is the Pattern_White_Space
/// property of `c` in the crate's compiled data, named `spec_pattern_white_space`.
#[verifier::external_body]
fn is_pattern_white_space(c: char) -> (result: bool)
    ensures
        result == spec_pattern_white_space(c),
{
    icu_properties::sets::pattern_white_space().contains(c)
}

/// Calls `icu_properties::sets::pattern_syntax().contains(c)`: the result is the Pattern_Syntax property of
/// `c` in the crate's compiled data, named `spec_pattern_syntax`.
#[verifier::external_body]
fn is_pattern_syntax(c: char) -> (result: bool)
    ensures
        result == spec_pattern_syntax(c),
{
    icu_properties::sets::pattern_syntax().contains(c)
}

/// Calls `GraphemeClusterSegmenter::segment_str(s).count()`. The boundaries that the iterator yields are
/// distinct character boundaries of `s` (offsets `0..=s.len()`), so there are at most one more than the
/// characters of `s`. The count is named `spec_grapheme_boundaries`; every segmenter this library holds is made
/// by `GraphemeClusterSegmenter::new()` from the compiled data.
#[verifier::external_body]
fn grapheme_boundary_count(segmenter: &GraphemeClusterSegmenter, s: &str) -> (result: usize)
    ensures
        result == spec_grapheme_boundaries(s@),
        result <= s@.len() + 1,
{
    segmenter.segment_str(s).count()
}

/// Calls `GraphemeClusterSegmenter::new()`, the segmenter of the compiled data.
#[verifier::external_body]
fn new_grapheme_segmenter() -> (result: GraphemeClusterSegmenter) {
    GraphemeClusterSegmenter::new()
}

/// Calls `icu_properties::sets::pattern_syntax()` and converts the borrowed set to an owned set.
#[verifier::external_body]
fn pattern_syntax_set() -> (result: CodePointSetData) {
    icu_properties::sets::pattern_syntax().static_to_owned()
}

/// Calls `icu_properties::sets::pattern_white_space()` and converts the borrowed set to an owned set.
#[verifier::external_body]
fn pattern_white_space_set() -> (result: CodePointSetData) {
    icu_properties::sets::pattern_white_space().static_to_owned()
}

/// Calls `String::push`: appends the character to the string.
#[verifier::external_body]
pub(crate) fn push_char(string: &mut String, c: char)
    ensures
        final(string)@ == old(string)@.push(c),
{
    string.push(c)
}

/// Indicates which data provider to use for the ICU4X components. `Internal` uses the data compiled into the
/// ICU4X crates.
#[derive(Debug, Clone, Copy, PartialEq, Eq, Structural)]
pub enum DataProvider {
    Internal,
}

/// The errors of creating an [`IcuDataProvider`]: a missing grapheme segmenter, Pattern_Syntax data or
/// Pattern_White_Space data.
#[derive(Debug, Clone, Copy, PartialEq, Eq, Structural)]
pub enum IcuError {
    Grapheme,
    Syntax,
    WhiteSpace,
}

/// The ICU4X data used by the lexer: the grapheme cluster segmenter and the Pattern_Syntax and
/// Pattern_White_Space character sets.
pub struct IcuDataProvider {
    data_provider: DataProvider,
    grapheme_segmenter: GraphemeClusterSegmenter,
    syntax: CodePointSetData,
    white_space: CodePointSetData,
}

impl IcuDataProvider {
    /// The data provider that this instance was created with.
    pub closed spec fn provider(&self) -> DataProvider {
        self.data_provider
    }

    /// The grapheme cluster segmenter of the instance.
    pub closed spec fn segmenter(&self) -> GraphemeClusterSegmenter {
        self.grapheme_segmenter
    }

    /// The Pattern_Syntax set of the instance.
    pub closed spec fn syntax_set(&self) -> CodePointSetData {
        self.syntax
    }

    /// The Pattern_White_Space set of the instance.
    pub closed spec fn white_space_set(&self) -> CodePointSetData {
        self.white_space
    }

    /// Creates an `IcuDataProvider` for the data provider. With the compiled data every component is present,
    /// so creation always succeeds.
    pub fn try_new(data_provider: DataProvider) -> (result: Result<Self, IcuError>)
        ensures
            result matches Ok(p) && p.provider() == data_provider,
    {
        let grapheme_segmenter = new_grapheme_segmenter();
        let syntax = pattern_syntax_set();
        let white_space = pattern_white_space_set();
        Ok(IcuDataProvider { data_provider, grapheme_segmenter, syntax, white_space })
    }

    /// The data provider enum.
    pub fn data_provider(&self) -> (result: &DataProvider)
        ensures
            *result == self.provider(),
    {
        &self.data_provider
    }

    /// The grapheme cluster segmenter.
    pub fn grapheme_segmenter(&self) -> (result: &GraphemeClusterSegmenter)
        ensures
            *result == self.segmenter(),
    {
        &self.grapheme_segmenter
    }

    /// The Pattern_Syntax character set.
    pub fn syntax(&self) -> (result: &CodePointSetData)
        ensures
            *result == self.syntax_set(),
    {
        &self.syntax
    }

    /// The Pattern_White_Space character set.
    pub fn white_space(&self) -> (result: &CodePointSetData)
        ensures
            *result == self.white_space_set(),
    {
        &self.white_space
    }
}

/// The token types:
///
/// - `WhiteSpace`: only Pattern_White_Space characters;
/// - `Identifier`: only characters that are neither white space nor syntax;
/// - `Grammar`: a single grammar syntax character;
/// - `Syntax`: only Pattern_Syntax characters that are not grammar syntax characters.
#[derive(Debug, Copy, Clone, PartialEq, Eq, Structural)]
pub enum TokenType {
    WhiteSpace,
    Identifier,
    Grammar,
    Syntax,
}

/// A fragment of the tokenised string, with its token type, its start position and its length in bytes,
/// characters and grapheme clusters, and the byte position after it.
#[derive(Debug, Clone)]
pub struct Token {
    pub string: String,
    pub token_type: TokenType,
    pub start_byte: usize,
    pub start_character: usize,
    pub start_grapheme: usize,
    pub length_bytes: usize,
    pub length_characters: usize,
    pub length_graphemes: usize,
    pub end_byte: usize,
}

/// The errors of the lexer: the grammar syntax characters or the string are empty.
#[derive(Debug, Clone, Copy, PartialEq, Eq, Structural)]
pub enum LexerError {
    NoGrammar,
    EmptyString,
}

/// The token type of a single character for the grammar syntax characters `grammar`.
pub open spec fn char_class(c: char, grammar: Seq<char>) -> TokenType {
    if spec_pattern_white_space(c) {
        TokenType::WhiteSpace
    } else if spec_pattern_syntax(c) {
        if grammar.contains(c) {
            TokenType::Grammar
        } else {
            TokenType::Syntax
        }
    } else {
        TokenType::Identifier
    }
}

/// The number of grapheme clusters of a string: one less than its boundaries.
pub open spec fn grapheme_count(s: Seq<char>) -> nat {
    if spec_grapheme_boundaries(s) == 0 {
        0
    } else {
        (spec_grapheme_boundaries(s) - 1) as nat
    }
}

/// The concatenated text of the tokens.
pub open spec fn token_text(tokens: Seq<Token>) -> Seq<char>
    decreases tokens.len(),
{
    if tokens.len() == 0 {
        Seq::empty()
    } else {
        token_text(tokens.drop_last()) + tokens.last().string@
    }
}

/// The total number of grapheme clusters of the tokens.
pub open spec fn grapheme_total(tokens: Seq<Token>) -> nat
    decreases tokens.len(),
{
    if tokens.len() == 0 {
        0
    } else {
        grapheme_total(tokens.drop_last()) + grapheme_count(tokens.last().string@)
    }
}

/// The token `t`, preceded by the tokens `prefix`, is a non-empty run of characters of its type (a single
/// character if grammar) with positions and lengths that agree with its text and the preceding text.
pub open spec fn token_well_formed(t: Token, grammar: Seq<char>, prefix: Seq<Token>) -> bool {
    &&& t.string@.len() > 0
    &&& forall|k: int| 0 <= k < t.string@.len() ==> char_class(#[trigger] t.string@[k], grammar) == t.token_type
    &&& t.token_type == TokenType::Grammar ==> t.string@.len() == 1
    &&& t.start_character == token_text(prefix).len()
    &&& t.length_characters == t.string@.len()
    &&& t.start_byte == utf8_length(token_text(prefix))
    &&& t.length_bytes == utf8_length(t.string@)
    &&& t.end_byte == t.start_byte + t.length_bytes
    &&& t.start_grapheme == grapheme_total(prefix)
    &&& t.length_graphemes == grapheme_count(t.string@)
    &&& t.start_grapheme <= t.start_character
    &&& t.length_graphemes <= t.length_characters
}

/// `tokens` is the tokenisation of `string` for the grammar syntax characters `grammar`: the tokens spell the
/// string, each is well formed, and two neighbouring tokens have the same type only if both are grammar.
#[verifier::opaque]
pub open spec fn is_tokenisation(string: Seq<char>, grammar: Seq<char>, tokens: Seq<Token>) -> bool {
    &&& token_text(tokens) == string
    &&& forall|i: int| 0 <= i < tokens.len() ==> token_well_formed(#[trigger] tokens[i], grammar, tokens.take(i))
    &&& forall|i: int|
        0 <= i < tokens.len() - 1 ==> (#[trigger] tokens[i].token_type == tokens[i + 1].token_type
            ==> tokens[i].token_type == TokenType::Grammar)
}

/// The last token of a tokenisation ends where the string ends: its end byte, and its start plus its length
/// in characters and in grapheme clusters, are the totals of the tokens.
pub proof fn lemma_tokenisation_totals(string: Seq<char>, grammar: Seq<char>, tokens: Seq<Token>)
    requires
        is_tokenisation(string, grammar, tokens),
        tokens.len() > 0,
    ensures
        tokens.last().end_byte == utf8_length(string),
        tokens.last().start_character + tokens.last().length_characters == string.len(),
        tokens.last().start_grapheme + tokens.last().length_graphemes == grapheme_total(tokens),
        grapheme_total(tokens) <= string.len(),
        token_text(tokens) == string,
{
    reveal(is_tokenisation);
    let n = tokens.len() - 1;
    let t = tokens[n];
    assert(token_well_formed(t, grammar, tokens.take(n)));
    assert(tokens.take(n) == tokens.drop_last());
    lemma_utf8_length_concat(token_text(tokens.drop_last()), t.string@);
}

/// The tokens of a tokenisation of a non-empty string cover it without gap: there is at least one, the first
/// starts at byte 0, the last ends at the string's end, each ends at its start plus its length, and each
/// next token starts (in bytes, characters and grapheme clusters) where the one before it ends.
pub proof fn lemma_tokens_adjacent(string: Seq<char>, grammar: Seq<char>, tokens: Seq<Token>)
    requires
        is_tokenisation(string, grammar, tokens),
        string.len() > 0,
    ensures
        tokens.len() >= 1,
        token_text(tokens) == string,
        tokens[0].start_byte == 0,
        tokens[0].start_character == 0,
        tokens[0].start_grapheme == 0,
        tokens.last().end_byte == utf8_length(string),
        forall|i: int|
            0 <= i < tokens.len() ==> (#[trigger] tokens[i]).length_bytes == utf8_length(tokens[i].string@)
                && tokens[i].length_characters == tokens[i].string@.len() && tokens[i].end_byte
                == tokens[i].start_byte + tokens[i].length_bytes,
        forall|i: int|
            0 <= i < tokens.len() - 1 ==> (#[trigger] tokens[i + 1]).start_byte == tokens[i].end_byte
                && tokens[i + 1].start_character == tokens[i].start_character + tokens[i].length_characters
                && tokens[i + 1].start_grapheme == tokens[i].start_grapheme + tokens[i].length_graphemes,
{
    reveal(is_tokenisation);
    if tokens.len() == 0 {
        assert(token_text(tokens) == Seq::<char>::empty());
    }
    lemma_tokenisation_totals(string, grammar, tokens);
    reveal(is_tokenisation);
    assert(tokens.take(0) =~= Seq::<Token>::empty());
    assert(token_well_formed(tokens[0], grammar, tokens.take(0)));
    assert(token_text(Seq::<Token>::empty()) == Seq::<char>::empty());
    assert forall|i: int|
        0 <= i < tokens.len() - 1 implies (#[trigger] tokens[i + 1]).start_byte == tokens[i].end_byte
            && tokens[i + 1].start_character == tokens[i].start_character + tokens[i].length_characters
            && tokens[i + 1].start_grapheme == tokens[i].start_grapheme + tokens[i].length_graphemes by {
        assert(token_well_formed(tokens[i], grammar, tokens.take(i)));
        assert(token_well_formed(tokens[i + 1], grammar, tokens.take(i + 1)));
        assert(tokens.take(i + 1) =~= tokens.take(i).push(tokens[i]));
        lemma_token_text_push(tokens.take(i), tokens[i]);
        lemma_utf8_length_concat(token_text(tokens.take(i)), tokens[i].string@);
    }
    assert forall|i: int| 0 <= i < tokens.len() implies (#[trigger] tokens[i]).length_bytes == utf8_length(
        tokens[i].string@,
    ) && tokens[i].length_characters == tokens[i].string@.len() && tokens[i].end_byte == tokens[i].start_byte
        + tokens[i].length_bytes by {
        assert(token_well_formed(tokens[i], grammar, tokens.take(i)));
    }
}

/// The text of the first `m` tokens is a prefix of the text of the first `n`, for `m <= n`.
proof fn lemma_token_text_prefix(tokens: Seq<Token>, m: int, n: int)
    requires
        0 <= m <= n <= tokens.len(),
    ensures
        token_text(tokens.take(m)).len() <= token_text(tokens.take(n)).len(),
        forall|k: int|
            0 <= k < token_text(tokens.take(m)).len() ==> token_text(tokens.take(m))[k] == token_text(tokens.take(n))[k],
    decreases n - m,
{
    if m < n {
        lemma_token_text_prefix(tokens, m, n - 1);
        assert(tokens.take(n).drop_last() =~= tokens.take(n - 1));
    }
}

/// The first character of each token is a character of the string, of the token's type.
proof fn lemma_token_first_char(string: Seq<char>, grammar: Seq<char>, tokens: Seq<Token>, j: int)
    requires
        is_tokenisation(string, grammar, tokens),
        0 <= j < tokens.len(),
    ensures
        tokens[j].string@.len() > 0,
        0 <= token_text(tokens.take(j)).len() < string.len(),
        string[token_text(tokens.take(j)).len() as int] == tokens[j].string@[0],
        char_class(tokens[j].string@[0], grammar) == tokens[j].token_type,
{
    reveal(is_tokenisation);
    let t = tokens[j];
    assert(token_well_formed(t, grammar, tokens.take(j)));
    let at = token_text(tokens.take(j)).len() as int;
    assert(tokens.take(j + 1).drop_last() =~= tokens.take(j));
    assert(token_text(tokens.take(j + 1)) == token_text(tokens.take(j)) + t.string@);
    assert(token_text(tokens.take(j + 1))[at] == t.string@[0]);
    lemma_token_text_prefix(tokens, j + 1, tokens.len() as int);
    assert(tokens.take(tokens.len() as int) =~= tokens);
}

/// A string without grammar syntax characters has no grammar token.
pub proof fn lemma_no_grammar_tokens(string: Seq<char>, grammar: Seq<char>, tokens: Seq<Token>)
    requires
        is_tokenisation(string, grammar, tokens),
        forall|k: int| 0 <= k < string.len() ==> !grammar.contains(#[trigger] string[k]),
    ensures
        forall|j: int| 0 <= j < tokens.len() ==> (#[trigger] tokens[j]).token_type != TokenType::Grammar,
{
    assert forall|j: int| 0 <= j < tokens.len() implies (#[trigger] tokens[j]).token_type != TokenType::Grammar by {
        lemma_token_first_char(string, grammar, tokens, j);
        let at = token_text(tokens.take(j)).len() as int;
        assert(!grammar.contains(string[at]));
    }
}

proof fn lemma_token_text_push(tokens: Seq<Token>, t: Token)
    ensures
        token_text(tokens.push(t)) == token_text(tokens) + t.string@,
        grapheme_total(tokens.push(t)) == grapheme_total(tokens) + grapheme_count(t.string@),
{
    assert(tokens.push(t).drop_last() == tokens);
}

/// The token type of a character.
fn classify(c: char, grammar: &Vec<char>) -> (result: TokenType)
    ensures
        result == char_class(c, grammar@),
{
    if is_pattern_white_space(c) {
        TokenType::WhiteSpace
    } else if is_pattern_syntax(c) {
        let mut i: usize = 0;
        while i < grammar.len()
            invariant
                0 <= i <= grammar.len(),
                !spec_pattern_white_space(c),
                spec_pattern_syntax(c),
                forall|k: int| 0 <= k < i ==> grammar@[k] != c,
            decreases grammar.len() - i,
        {
            if grammar[i] == c {
                assert(grammar@[i as int] == c);
                assert(grammar@.contains(c));
                return TokenType::Grammar;
            }
            i = i + 1;
        }
        TokenType::Syntax
    } else {
        TokenType::Identifier
    }
}

/// The characters of a string slice, in order.
fn chars_of(s: &str) -> (result: Vec<char>)
    ensures
        result@ == s@,
{
    let n = s.unicode_len();
    let mut result: Vec<char> = Vec::new();
    let mut i: usize = 0;
    while i < n
        invariant
            n == s@.len(),
            0 <= i <= n,
            result@ == s@.take(i as int),
        decreases n - i,
    {
        let c = s.get_char(i);
        result.push(c);
        assert(s@.take(i + 1) == s@.take(i as int).push(c));
        i = i + 1;
    }
    assert(s@.take(n as int) == s@);
    result
}

/// Builds the token for the text `string` of type `token_type`, preceded by tokens whose text has `start_char`
/// characters, `start_byte` bytes and `start_grapheme` grapheme clusters.
fn make_token(
    segmenter: &GraphemeClusterSegmenter,
    string: String,
    token_type: TokenType,
    start_byte: usize,
    start_char: usize,
    start_grapheme: usize,
    length_bytes: usize,
) -> (result: Token)
    requires
        string@.len() > 0,
        start_char + string@.len() <= usize::MAX,
        start_byte + length_bytes <= usize::MAX,
        start_grapheme + string@.len() <= usize::MAX,
    ensures
        result.string@ == string@,
        result.token_type == token_type,
        result.start_byte == start_byte,
        result.start_character == start_char,
        result.start_grapheme == start_grapheme,
        result.length_bytes == length_bytes,
        result.length_characters == string@.len(),
        result.length_graphemes == grapheme_count(string@),
        result.end_byte == start_byte + length_bytes,
        result.length_graphemes <= string@.len(),
{
    let boundaries = grapheme_boundary_count(segmenter, string.as_str());
    let length_graphemes = if boundaries == 0 {
        0
    } else {
        boundaries - 1
    };
    let length_characters = string.as_str().unicode_len();
    Token {
        string,
        token_type,
        start_byte,
        start_character: start_char,
        start_grapheme,
        length_bytes,
        length_characters,
        length_graphemes,
        end_byte: start_byte + length_bytes,
    }
}

/// Every token of `tokens` is well formed, and neighbouring tokens have the same type only if both are grammar.
#[verifier::opaque]
spec fn tokens_ok(grammar: Seq<char>, tokens: Seq<Token>) -> bool {
    &&& forall|i: int| 0 <= i < tokens.len() ==> token_well_formed(#[trigger] tokens[i], grammar, tokens.take(i))
    &&& forall|i: int|
        0 <= i < tokens.len() - 1 ==> (#[trigger] tokens[i].token_type == tokens[i + 1].token_type
            ==> tokens[i].token_type == TokenType::Grammar)
}

/// A non-empty run of characters of one type, a single character if grammar.
#[verifier::opaque]
spec fn run_ok(grammar: Seq<char>, run: Seq<char>, run_type: TokenType) -> bool {
    &&& run.len() > 0
    &&& forall|k: int| 0 <= k < run.len() ==> char_class(#[trigger] run[k], grammar) == run_type
    &&& run_type == TokenType::Grammar ==> run.len() == 1
}

/// Appending a well-formed token to well-formed tokens keeps them well formed.
#[verifier::spinoff_prover]
proof fn lemma_tokens_ok_push(grammar: Seq<char>, tokens: Seq<Token>, t: Token)
    requires
        tokens_ok(grammar, tokens),
        token_well_formed(t, grammar, tokens),
        tokens.len() > 0 ==> (tokens.last().token_type == t.token_type ==> t.token_type == TokenType::Grammar),
    ensures
        tokens_ok(grammar, tokens.push(t)),
{
    reveal(tokens_ok);
    let r = tokens.push(t);
    assert(r.take(tokens.len() as int) =~= tokens);
    assert forall|j: int| 0 <= j < r.len() implies token_well_formed(#[trigger] r[j], grammar, r.take(j)) by {
        if j < tokens.len() {
            assert(r.take(j) =~= tokens.take(j));
            assert(r[j] == tokens[j]);
        }
    }
}

/// Extending a run by a character of its type (not grammar) keeps it a run.
proof fn lemma_run_ok_push(grammar: Seq<char>, run: Seq<char>, run_type: TokenType, c: char)
    requires
        run_ok(grammar, run, run_type),
        char_class(c, grammar) == run_type,
        run_type != TokenType::Grammar,
    ensures
        run_ok(grammar, run.push(c), run_type),
{
    reveal(run_ok);
    assert forall|k: int| 0 <= k < run.push(c).len() implies char_class(#[trigger] run.push(c)[k], grammar)
        == run_type by {
        if k < run.len() {
            assert(run.push(c)[k] == run[k]);
        }
    }
}

/// A single character is a run of its type.
proof fn lemma_run_ok_single(grammar: Seq<char>, c: char)
    ensures
        run_ok(grammar, seq![c], char_class(c, grammar)),
{
    reveal(run_ok);
}

/// The token made of a run is well formed when its positions follow the preceding tokens.
proof fn lemma_token_from_run(grammar: Seq<char>, tokens: Seq<Token>, t: Token)
    requires
        run_ok(grammar, t.string@, t.token_type),
        t.start_character == token_text(tokens).len(),
        t.length_characters == t.string@.len(),
        t.start_byte == utf8_length(token_text(tokens)),
        t.length_bytes == utf8_length(t.string@),
        t.end_byte == t.start_byte + t.length_bytes,
        t.start_grapheme == grapheme_total(tokens),
        t.length_graphemes == grapheme_count(t.string@),
        t.start_grapheme <= t.start_character,
        t.length_graphemes <= t.length_characters,
    ensures
        token_well_formed(t, grammar, tokens),
{
    reveal(run_ok);
}

proof fn lemma_tokens_ok_is_tokenisation(s: Seq<char>, grammar: Seq<char>, tokens: Seq<Token>)
    requires
        tokens_ok(grammar, tokens),
        token_text(tokens) == s,
    ensures
        is_tokenisation(s, grammar, tokens),
{
    reveal(tokens_ok);
    reveal(is_tokenisation);
}

/// Tokenises `string` with the grammar syntax characters `grammar`.
///
/// Fails with `NoGrammar` when `grammar` is empty, and otherwise with `EmptyString` when `string` is empty.
#[verifier::rlimit(60)]
pub fn tokenise(string: &str, grammar: &str, icu_data_provider: &IcuDataProvider) -> (result: Result<
    Vec<Token>,
    LexerError,
>)
    ensures
        grammar@.len() == 0 ==> result == Err::<Vec<Token>, LexerError>(LexerError::NoGrammar),
        grammar@.len() > 0 && string@.len() == 0 ==> result == Err::<Vec<Token>, LexerError>(
            LexerError::EmptyString,
        ),
        grammar@.len() > 0 && string@.len() > 0 ==> (result matches Ok(tokens) && is_tokenisation(
            string@,
            grammar@,
            tokens@,
        ) && tokens@.len() > 0),
{
    if grammar.unicode_len() == 0 {
        return Err(LexerError::NoGrammar);
    }
    let chars = chars_of(string);
    if chars.len() == 0 {
        return Err(LexerError::EmptyString);
    }
    let grammar_chars = chars_of(grammar);
    let segmenter = &icu_data_provider.grapheme_segmenter;
    let bytes = string.as_bytes();
    let total_bytes = bytes.len();
    proof {
        lemma_utf8_length_encode(string@);
    }
    let ghost s = string@;
    let ghost g = grammar@;
    let n = chars.len();
    let mut tokens: Vec<Token> = Vec::new();
    let first = chars[0];
    let mut current = String::new();
    push_char(&mut current, first);
    let mut current_type = classify(first, &grammar_chars);
    let mut current_start_byte: usize = 0;
    let mut current_start_char: usize = 0;
    let mut current_start_grapheme: usize = 0;
    let mut current_bytes: usize = char_byte_width(first);
    let mut i: usize = 1;
    proof {
        assert(s.take(1) == seq![first]);
        assert(current@ == seq![first]);
        lemma_utf8_length_single(first);
        lemma_run_ok_single(g, first);
        assert(token_text(tokens@) == Seq::<char>::empty());
        assert(Seq::<char>::empty() + current@ == current@);
        reveal(tokens_ok);
    }
    while i < n
        invariant
            n == s.len(),
            chars@ == s,
            grammar_chars@ == g,
            total_bytes == utf8_length(s),
            1 <= i <= n,
            token_text(tokens@) + current@ == s.take(i as int),
            tokens_ok(g, tokens@),
            tokens@.len() > 0 ==> (tokens@.last().token_type == current_type ==> current_type
                == TokenType::Grammar),
            run_ok(g, current@, current_type),
            current@.len() > 0,
            current_start_char == token_text(tokens@).len(),
            current_start_byte == utf8_length(token_text(tokens@)),
            current_start_grapheme == grapheme_total(tokens@),
            current_start_grapheme <= current_start_char,
            current_bytes == utf8_length(current@),
            current_start_byte + current_bytes == utf8_length(s.take(i as int)),
        decreases n - i,
    {
        let c = chars[i];
        let k = classify(c, &grammar_chars);
        proof {
            lemma_utf8_length_prefix(s, i as int + 1);
            assert(s.take(i + 1) == s.take(i as int).push(c));
            lemma_utf8_length_push(s.take(i as int), c);
        }
        let width = char_byte_width(c);
        if k != current_type || k == TokenType::Grammar {
            let ghost old_tokens = tokens@;
            let ghost old_type = current_type;
            proof {
                lemma_utf8_length_concat(token_text(tokens@), current@);
            }
            let token = make_token(
                segmenter,
                current,
                current_type,
                current_start_byte,
                current_start_char,
                current_start_grapheme,
                current_bytes,
            );
            let length_characters = token.length_characters;
            let length_graphemes = token.length_graphemes;
            proof {
                lemma_token_from_run(g, old_tokens, token);
                lemma_tokens_ok_push(g, old_tokens, token);
                lemma_token_text_push(old_tokens, token);
            }
            tokens.push(token);
            current_start_char = current_start_char + length_characters;
            current_start_byte = current_start_byte + current_bytes;
            current_start_grapheme = current_start_grapheme + length_graphemes;
            current = String::new();
            push_char(&mut current, c);
            current_type = k;
            current_bytes = width;
            proof {
                assert(current@ == seq![c]);
                lemma_utf8_length_single(c);
                lemma_run_ok_single(g, c);
                assert(tokens@.last() == token);
                assert(token_text(tokens@) + current@ == (token_text(old_tokens) + token.string@).push(c));
            }
        } else {
            let ghost before = current@;
            push_char(&mut current, c);
            current_bytes = current_bytes + width;
            proof {
                lemma_utf8_length_push(before, c);
                lemma_run_ok_push(g, before, current_type, c);
                assert(token_text(tokens@) + current@ == (token_text(tokens@) + before).push(c));
            }
        }
        i = i + 1;
    }
    proof {
        assert(s.take(n as int) == s);
        lemma_utf8_length_concat(token_text(tokens@), current@);
    }
    let ghost old_tokens = tokens@;
    let token = make_token(
        segmenter,
        current,
        current_type,
        current_start_byte,
        current_start_char,
        current_start_grapheme,
        current_bytes,
    );
    proof {
        lemma_token_from_run(g, old_tokens, token);
        lemma_tokens_ok_push(g, old_tokens, token);
        lemma_token_text_push(old_tokens, token);
    }
    tokens.push(token);
    proof {
        lemma_tokens_ok_is_tokenisation(s, g, tokens@);
    }
    Ok(tokens)
}

/// The tokens in reverse order.
fn reverse_tokens(tokens: Vec<Token>) -> (result: Vec<Token>)
    ensures
        result@.reverse() == tokens@,
{
    let mut remaining: Vec<Token> = Vec::new();
    let mut tokens = tokens;
    let ghost all = tokens@;
    while tokens.len() > 0
        invariant
            all == tokens@ + remaining@.reverse(),
        decreases tokens.len(),
    {
        let ghost before = tokens@;
        let ghost before_remaining = remaining@;
        let t = tokens.pop().unwrap();
        remaining.push(t);
        proof {
            assert(before == tokens@.push(t));
            assert(remaining@.drop_last() == before_remaining);
            assert(remaining@.reverse() =~= seq![t] + before_remaining.reverse());
            assert(before + before_remaining.reverse() =~= tokens@ + (seq![t] + before_remaining.reverse()));
        }
    }
    assert(tokens@ + remaining@.reverse() =~= remaining@.reverse());
    remaining
}

/// An iterator over the tokens of a string, in order.
pub struct LexerIterator {
    remaining: Vec<Token>,
    icu_data_provider: Rc<IcuDataProvider>,
}

impl LexerIterator {
    /// The tokens that the iterator has still to return, in order.
    pub closed spec fn pending(&self) -> Seq<Token> {
        self.remaining@.reverse()
    }

    /// Creates an iterator over the tokens of `string` for the grammar syntax characters `grammar`.
    ///
    /// Fails as [`tokenise`] does.
    pub fn try_new(string: &str, grammar: &str, icu_data_provider: &Rc<IcuDataProvider>) -> (result: Result<
        LexerIterator,
        LexerError,
    >)
        ensures
            grammar@.len() == 0 ==> (result matches Err(e) && e == LexerError::NoGrammar),
            grammar@.len() > 0 && string@.len() == 0 ==> (result matches Err(e) && e == LexerError::EmptyString),
            grammar@.len() > 0 && string@.len() > 0 ==> (result matches Ok(it) && is_tokenisation(
                string@,
                grammar@,
                it.pending(),
            )),
    {
        let tokens = tokenise(string, grammar, icu_data_provider)?;
        let remaining = reverse_tokens(tokens);
        Ok(LexerIterator { remaining, icu_data_provider: Rc::clone(icu_data_provider) })
    }

    /// Returns the next token, or `None` when every token has been returned.
    pub fn next(&mut self) -> (result: Option<Token>)
        ensures
            old(self).pending().len() == 0 ==> result is None && final(self).pending() == old(self).pending(),
            old(self).pending().len() > 0 ==> result == Some(old(self).pending()[0])
                && final(self).pending() == old(self).pending().drop_first(),
    {
        let ghost before = self.remaining@;
        let result = self.remaining.pop();
        proof {
            if before.len() > 0 {
                assert(before.reverse()[0] == before.last());
                assert(self.remaining@.reverse() =~= before.reverse().drop_first());
            }
        }
        result
    }
}

} // verus!
