use i18n_localiser::lexer::{DataProvider, IcuDataProvider, LexerIterator, TokenType};
use std::rc::Rc;

fn counts(string: &str, grammar: &str) -> [usize; 8] {
    let icu_data_provider = Rc::new(IcuDataProvider::try_new(DataProvider::Internal).unwrap());
    let mut iterator = LexerIterator::try_new(string, grammar, &icu_data_provider).unwrap();
    let mut totals = [0usize; 8];
    while let Some(token) = iterator.next() {
        match token.token_type {
            TokenType::Grammar => totals[0] += 1,
            TokenType::Syntax => totals[1] += 1,
            TokenType::WhiteSpace => totals[2] += 1,
            TokenType::Identifier => totals[3] += 1,
        }
        totals[4] += token.length_bytes;
        totals[5] += token.length_characters;
        totals[6] += token.length_graphemes;
        totals[7] += 1;
    }
    totals
}

#[test]
fn tokenise_single_byte_character_string() {
    let totals = counts("String contains a {placeholder}.", "{}");
    assert_eq!(totals[4], 32, "Supposed to be a total of 32 bytes.");
    assert_eq!(totals[5], 32, "Supposed to be a total of 32 characters.");
    assert_eq!(totals[6], 32, "Supposed to be a total of 32 graphemes.");
    assert_eq!(totals[7], 10, "Supposed to be a total of 10 tokens.");
    assert_eq!(totals[0], 2, "Supposed to be 2 grammar tokens.");
    assert_eq!(totals[1], 1, "Supposed to be 1 syntax token.");
    assert_eq!(totals[2], 3, "Supposed to be 3 white space tokens.");
    assert_eq!(totals[3], 4, "Supposed to be 4 identifier tokens.");
}

#[test]
fn tokenise_multi_byte_character_string() {
    let totals = counts("Earth = \u{1F30D}. \u{AC00}\u{11A8}", "{}");
    assert_eq!(totals[4], 20, "Supposed to be a total of 20 bytes.");
    assert_eq!(totals[5], 13, "Supposed to be a total of 13 characters.");
    assert_eq!(totals[6], 12, "Supposed to be a total of 12 graphemes.");
    assert_eq!(totals[7], 8, "Supposed to be a total of 8 tokens.");
    assert_eq!(totals[0], 0, "Supposed to be 0 grammar tokens.");
    assert_eq!(totals[1], 2, "Supposed to be 2 syntax tokens.");
    assert_eq!(totals[2], 3, "Supposed to be 3 white space tokens.");
    assert_eq!(totals[3], 3, "Supposed to be 3 identifier tokens.");
}

#[test]
fn tokens_join_to_the_string() {
    let icu_data_provider = Rc::new(IcuDataProvider::try_new(DataProvider::Internal).unwrap());
    let string = "Earth = \u{1F30D}. 각 {x}";
    let mut iterator = LexerIterator::try_new(string, "{}", &icu_data_provider).unwrap();
    let mut joined = String::new();
    let mut last_end = 0;
    while let Some(token) = iterator.next() {
        assert_eq!(token.start_byte, last_end);
        joined.push_str(token.string.as_str());
        last_end = token.end_byte;
    }
    assert_eq!(joined, string);
    assert_eq!(last_end, string.len());
}

#[test]
fn tokenise_errors() {
    let icu_data_provider = Rc::new(IcuDataProvider::try_new(DataProvider::Internal).unwrap());
    assert!(matches!(
        LexerIterator::try_new("text", "", &icu_data_provider),
        Err(i18n_localiser::lexer::LexerError::NoGrammar)
    ));
    assert!(matches!(
        LexerIterator::try_new("", "{}", &icu_data_provider),
        Err(i18n_localiser::lexer::LexerError::EmptyString)
    ));
}

#[test]
fn tokens_are_adjacent() {
    let icu_data_provider = Rc::new(IcuDataProvider::try_new(DataProvider::Internal).unwrap());
    let string = "Earth = \u{1F30D}. {x} \u{1F468}\u{200D}\u{1F469}";
    let mut iterator = LexerIterator::try_new(string, "{}", &icu_data_provider).unwrap();
    let mut text = String::new();
    let (mut byte, mut character, mut grapheme) = (0usize, 0usize, 0usize);
    let mut count = 0usize;
    while let Some(token) = iterator.next() {
        assert_eq!(token.start_byte, byte);
        assert_eq!(token.start_character, character);
        assert_eq!(token.start_grapheme, grapheme);
        assert_eq!(token.length_bytes, token.string.len());
        assert_eq!(token.length_characters, token.string.chars().count());
        assert_eq!(token.end_byte, token.start_byte + token.length_bytes);
        byte = token.end_byte;
        character += token.length_characters;
        grapheme += token.length_graphemes;
        text.push_str(&token.string);
        count += 1;
    }
    assert!(count >= 1);
    assert_eq!(text, string);
    assert_eq!(byte, string.len());
}
